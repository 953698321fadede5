//! Discord embeds as plain records (the app turns them into serenity's
//! builders), and the embeds of the wheel, the wallet and the cushions.

use vstd::prelude::*;
use vstd::string::*;

use crate::api_client::{CoussinInventoryItem, CoussinProfileResponse, WalletResponse, WheelSpinResponse};
use crate::text::{has_prefix, has_suffix, int_text, lemma_int_text_injective, joined, join_texts, nat_text, opt_string, owned, push_i64, push_str, views};

verus! {

/// One field of an embed.
pub struct EmbedField {
    pub name: String,
    pub value: String,
    pub inline: bool,
}

/// An embed: what Discord shows of it, field by field.
pub struct Embed {
    pub title: Option<String>,
    pub description: Option<String>,
    pub color: Option<u32>,
    pub fields: Vec<EmbedField>,
    pub footer: Option<String>,
    pub image: Option<String>,
    pub thumbnail: Option<String>,
    /// Stamped with the instant it is sent.
    pub timestamp: bool,
}

/// A field as texts.
pub open spec fn field_view(f: EmbedField) -> (Seq<char>, Seq<char>, bool) {
    (f.name@, f.value@, f.inline)
}

/// The fields of an embed as texts.
pub open spec fn fields_view(v: Seq<EmbedField>) -> Seq<(Seq<char>, Seq<char>, bool)> {
    v.map_values(|f: EmbedField| field_view(f))
}

impl Embed {
    /// An empty embed.
    pub fn new() -> (r: Embed)
        ensures
            r.title is None,
            r.description is None,
            r.color is None,
            r.fields@.len() == 0,
            r.footer is None,
            r.image is None,
        r.thumbnail is None,
            !r.timestamp,
    {
        Embed {
            title: None,
            description: None,
            color: None,
            fields: Vec::new(),
            footer: None,
            image: None,
            thumbnail: None,
            timestamp: false,
        }
    }

    /// Sets the title.
    pub fn title(self, t: String) -> (r: Embed)
        ensures
            r == (Embed { title: Some(t), ..self }),
    {
        Embed { title: Some(t), ..self }
    }

    /// Sets the description.
    pub fn description(self, d: String) -> (r: Embed)
        ensures
            r == (Embed { description: Some(d), ..self }),
    {
        Embed { description: Some(d), ..self }
    }

    /// Sets the color.
    pub fn color(self, c: u32) -> (r: Embed)
        ensures
            r == (Embed { color: Some(c), ..self }),
    {
        Embed { color: Some(c), ..self }
    }

    /// Sets the footer text.
    pub fn footer(self, f: String) -> (r: Embed)
        ensures
            r == (Embed { footer: Some(f), ..self }),
    {
        Embed { footer: Some(f), ..self }
    }

    /// Sets the image.
    pub fn image(self, url: String) -> (r: Embed)
        ensures
            r == (Embed { image: Some(url), ..self }),
    {
        Embed { image: Some(url), ..self }
    }

    /// Sets the thumbnail.
    pub fn thumbnail(self, url: String) -> (r: Embed)
        ensures
            r == (Embed { thumbnail: Some(url), ..self }),
    {
        Embed { thumbnail: Some(url), ..self }
    }

    /// Stamps the embed with the instant it is sent.
    pub fn timestamp_now(self) -> (r: Embed)
        ensures
            r == (Embed { timestamp: true, ..self }),
    {
        Embed { timestamp: true, ..self }
    }

    /// Adds a field after the others.
    pub fn field(self, name: String, value: String, inline: bool) -> (r: Embed)
        ensures
            r.title == self.title,
            r.description == self.description,
            r.color == self.color,
            r.footer == self.footer,
            r.image == self.image,
            r.thumbnail == self.thumbnail,
            r.timestamp == self.timestamp,
            fields_view(r.fields@) == fields_view(self.fields@).push((name@, value@, inline)),
    {
        let mut e = self;
        let ghost before = e.fields@;
        e.fields.push(EmbedField { name, value, inline });
        assert(fields_view(e.fields@) =~= fields_view(before).push((name@, value@, inline)));
        e
    }
}

/// Style of a button.
#[derive(Debug, Clone, Copy, PartialEq, Eq, Structural)]
pub enum ButtonStyle {
    Primary,
    Secondary,
    Success,
    Danger,
}

/// A button of a message.
pub struct Button {
    pub custom_id: String,
    pub label: String,
    pub emoji: Option<char>,
    pub style: ButtonStyle,
}

/// A button as plain values.
pub open spec fn button_view(b: Button) -> (Seq<char>, Seq<char>, Option<char>, ButtonStyle) {
    (b.custom_id@, b.label@, b.emoji, b.style)
}

/// Buttons as plain values.
pub open spec fn buttons_view(v: Seq<Button>) -> Seq<(Seq<char>, Seq<char>, Option<char>, ButtonStyle)> {
    v.map_values(|b: Button| button_view(b))
}

/// Color of a wheel result: gold for a memorable gain, dark red for a
/// memorable loss, green for a gain, red for a loss, grey for nothing.
pub open spec fn result_color(payout: i64, is_memorable: bool) -> u32 {
    if is_memorable && payout > 0 {
        0xf1c40f
    } else if is_memorable && payout < 0 {
        0x8b0000
    } else if payout > 0 {
        0x2ecc71
    } else if payout < 0 {
        0xe74c3c
    } else {
        0x95a5a6
    }
}

/// Color of a wheel result.
pub fn color_for(payout: i64, is_memorable: bool) -> (r: u32)
    ensures
        r == result_color(payout, is_memorable),
{
    if is_memorable && payout > 0 {
        return 0xf1c40f;
    }
    if is_memorable && payout < 0 {
        return 0x8b0000;
    }
    if payout > 0 {
        return 0x2ecc71;
    }
    if payout < 0 {
        return 0xe74c3c;
    }
    0x95a5a6
}

/// Waiting embed, shown while the wheel "turns" (after the API accepted the
/// spin).
pub fn build_spinning_embed(username: &str) -> (r: Embed)
    ensures
        opt_string(r.title) == Some("\u{1f300} La Roue du Destin tourne..."@),
        opt_string(r.description) == Some("\u{1f3b2} La roue tourne pour **"@ + username@
            + "** !\n\n# \u{1fa99} . . . \u{1fa99} . . . \u{1fa99}\n\n*Tic... tic... tic...*"@),
        r.color == Some(0xf1c40fu32),
        opt_string(r.footer) == Some("Le destin se decide..."@),
        r.fields@.len() == 0,
        r.image is None,
        r.thumbnail is None,
        !r.timestamp,
{
    let mut d = owned("\u{1f3b2} La roue tourne pour **");
    push_str(&mut d, username);
    push_str(&mut d, "** !\n\n# \u{1fa99} . . . \u{1fa99} . . . \u{1fa99}\n\n*Tic... tic... tic...*");
    Embed::new().title(owned("\u{1f300} La Roue du Destin tourne...")).description(d).color(
        0xf1c40f,
    ).footer(owned("Le destin se decide..."))
}

/// A signed amount with a `+` before a gain.
pub open spec fn signed_text(n: i64) -> Seq<char> {
    if n > 0 {
        seq!['+'] + int_text(n as int)
    } else {
        int_text(n as int)
    }
}

/// Footer of a wheel result.
pub open spec fn result_footer(is_memorable: bool, payout: i64, username: Seq<char>) -> Seq<char> {
    if is_memorable && payout > 0 {
        "🎉 GROS COUP pour "@ + username + " ! Reviens demain pour ton prochain spin."@
    } else if is_memorable && payout < 0 {
        "💀 Le destin a frappe fort. Reviens demain "@ + username + "."@
    } else {
        "Reviens demain pour ton prochain spin, "@ + username
    }
}

/// Final embed of a wheel spin.
pub fn build_result_embed(resp: &WheelSpinResponse, username: &str) -> (r: Embed)
    ensures
        opt_string(r.title) == Some(
            if resp.is_memorable {
                "\u{1f300} "@ + username@ + " a tire... LE DESTIN PARLE !"@
            } else {
                "\u{1f300} "@ + username@ + " a tire la Roue"@
            },
        ),
        opt_string(r.description) == Some("# "@ + resp.case_label@),
        r.color == Some(result_color(resp.payout, resp.is_memorable)),
        fields_view(r.fields@) == seq![
            ("Gain"@, signed_text(resp.payout) + " coins"@, true),
            ("Solde"@, int_text(resp.balance_after as int) + " coins"@, true),
        ],
        opt_string(r.footer) == Some(result_footer(resp.is_memorable, resp.payout, username@)),
        r.image is None,
        r.thumbnail is None,
        !r.timestamp,
{
    let mut net = String::new();
    if resp.payout > 0 {
        crate::text::push_char(&mut net, '+');
    }
    push_i64(&mut net, resp.payout);
    push_str(&mut net, " coins");
    assert(net@ =~= signed_text(resp.payout) + " coins"@);
    let mut title = owned("\u{1f300} ");
    push_str(&mut title, username);
    if resp.is_memorable {
        push_str(&mut title, " a tire... LE DESTIN PARLE !");
    } else {
        push_str(&mut title, " a tire la Roue");
    }
    let mut desc = owned("# ");
    push_str(&mut desc, resp.case_label.as_str());
    let mut solde = String::new();
    push_i64(&mut solde, resp.balance_after);
    push_str(&mut solde, " coins");
    let mut footer;
    if resp.is_memorable && resp.payout > 0 {
        footer = owned("🎉 GROS COUP pour ");
        push_str(&mut footer, username);
        push_str(&mut footer, " ! Reviens demain pour ton prochain spin.");
    } else if resp.is_memorable && resp.payout < 0 {
        footer = owned("💀 Le destin a frappe fort. Reviens demain ");
        push_str(&mut footer, username);
        push_str(&mut footer, ".");
    } else {
        footer = owned("Reviens demain pour ton prochain spin, ");
        push_str(&mut footer, username);
    }
    let e = Embed::new().title(title).description(desc).color(color_for(resp.payout, resp.is_memorable));
    let e = e.field(owned("Gain"), net, true);
    let e = e.field(owned("Solde"), solde, true);
    let e = e.footer(footer);
    assert(fields_view(e.fields@) =~= seq![
        ("Gain"@, signed_text(resp.payout) + " coins"@, true),
        ("Solde"@, int_text(resp.balance_after as int) + " coins"@, true),
    ]);
    e
}

fn coins_text(n: i64) -> (r: String)
    ensures
        r@ == int_text(n as int) + " coins"@,
{
    let mut s = String::new();
    push_i64(&mut s, n);
    push_str(&mut s, " coins");
    s
}

/// Wallet embed (`/solde`).
pub fn build_wallet_embed(w: &WalletResponse, display_name: &str) -> (r: Embed)
    ensures
        opt_string(r.title) == Some("\u{1fa99} Portefeuille de "@ + display_name@),
        r.description is None,
        r.color == Some(0xf1c40fu32),
        fields_view(r.fields@) == seq![
            ("Solde"@, "**"@ + int_text(w.coins as int) + "** coins"@, true),
            ("Total gagne"@, int_text(w.total_earned as int) + " coins"@, true),
            ("Total depense"@, int_text(w.total_spent as int) + " coins"@, true),
        ],
        r.footer is None,
        r.image is None,
        r.thumbnail is None,
        r.timestamp,
{
    let mut title = owned("\u{1fa99} Portefeuille de ");
    push_str(&mut title, display_name);
    let mut solde = owned("**");
    push_i64(&mut solde, w.coins);
    push_str(&mut solde, "** coins");
    let e = Embed::new().title(title).color(0xf1c40f);
    let e = e.field(owned("Solde"), solde, true);
    let e = e.field(owned("Total gagne"), coins_text(w.total_earned), true);
    let e = e.field(owned("Total depense"), coins_text(w.total_spent), true);
    let e = e.timestamp_now();
    assert(fields_view(e.fields@) =~= seq![
        ("Solde"@, "**"@ + int_text(w.coins as int) + "** coins"@, true),
        ("Total gagne"@, int_text(w.total_earned as int) + " coins"@, true),
        ("Total depense"@, int_text(w.total_spent as int) + " coins"@, true),
    ]);
    e
}

/// Description of a gift of coins.
pub open spec fn transfer_text(from: u64, to: u64, amount: i64, balance: i64, reason: Option<Seq<char>>) -> Seq<char> {
    "<@"@ + nat_text(from as nat) + "> a donne **"@ + int_text(amount as int) + " coins** a <@"@
        + nat_text(to as nat) + "> !\n\n\u{1f4b0} Nouveau solde du donateur : "@ + int_text(
        balance as int,
    ) + " coins"@ + match reason {
        Some(r) => "\n\u{1f4dd} Raison : "@ + r,
        None => Seq::empty(),
    }
}

/// Embed of a gift of coins (`/donner`).
pub fn build_transfer_embed(
    from_user_id: u64,
    to_user_id: u64,
    amount: i64,
    from_balance: i64,
    reason: Option<&str>,
) -> (r: Embed)
    ensures
        opt_string(r.title) == Some("\u{1f381} Don de coins !"@),
        opt_string(r.description) == Some(
            transfer_text(from_user_id, to_user_id, amount, from_balance, crate::text::opt_text(reason)),
        ),
        r.color == Some(0x57F287u32),
        r.fields@.len() == 0,
        r.footer is None,
        r.image is None,
        r.thumbnail is None,
        r.timestamp,
{
    let mut d = owned("<@");
    crate::text::push_u64(&mut d, from_user_id);
    push_str(&mut d, "> a donne **");
    push_i64(&mut d, amount);
    push_str(&mut d, " coins** a <@");
    crate::text::push_u64(&mut d, to_user_id);
    push_str(&mut d, "> !\n\n\u{1f4b0} Nouveau solde du donateur : ");
    push_i64(&mut d, from_balance);
    push_str(&mut d, " coins");
    let ghost before = d@;
    match reason {
        Some(r) => {
            push_str(&mut d, "\n\u{1f4dd} Raison : ");
            push_str(&mut d, r);
        },
        None => {
            assert(before + Seq::<char>::empty() =~= before);
        },
    }
    Embed::new().title(owned("\u{1f381} Don de coins !")).description(d).color(0x57F287).timestamp_now()
}

/// Rank shown before the `i`-th entry of the leaderboard: a medal for the
/// first three, then the position and a dot.
pub open spec fn rank_text(i: nat) -> Seq<char> {
    if i == 0 {
        "\u{1f947}"@
    } else if i == 1 {
        "\u{1f948}"@
    } else if i == 2 {
        "\u{1f949}"@
    } else {
        nat_text(i + 1) + "."@
    }
}

/// Line of the `i`-th entry of the leaderboard.
pub open spec fn leaderboard_line(i: nat, e: WalletResponse) -> Seq<char> {
    rank_text(i) + " <@"@ + e.user_id@ + "> — **"@ + int_text(e.coins as int) + "** coins"@
}

/// A line of the leaderboard shows the rank and the player, then the coins
/// the entry holds: it ends with
/// their number and ` coins`, and two entries of the same player at the same
/// rank give the same line exactly when they hold the same coins, whatever
/// they earned or spent in total.
pub proof fn leaderboard_shows_the_coins_held(i: nat, e: WalletResponse, f: WalletResponse)
    requires
        e.user_id@ == f.user_id@,
    ensures
        has_prefix(leaderboard_line(i, e), rank_text(i) + " <@"@ + e.user_id@ + "> — **"@),
        has_suffix(leaderboard_line(i, e), int_text(e.coins as int) + "** coins"@),
        leaderboard_line(i, e) == leaderboard_line(i, f) <==> e.coins == f.coins,
{
    let head = rank_text(i) + " <@"@ + e.user_id@ + "> — **"@;
    let tail = "** coins"@;
    let a = int_text(e.coins as int);
    let b = int_text(f.coins as int);
    let le = leaderboard_line(i, e);
    let lf = leaderboard_line(i, f);
    assert(le =~= head + (a + tail));
    assert(lf =~= head + (b + tail));
    let suffix = a + tail;
    assert(le.subrange(le.len() - suffix.len(), le.len() as int) =~= suffix);
    assert(le.subrange(0, head.len() as int) =~= head);
    if le == lf {
        assert(a.len() == b.len());
        assert(a =~= le.subrange(head.len() as int, (head.len() + a.len()) as int));
        assert(b =~= lf.subrange(head.len() as int, (head.len() + b.len()) as int));
        lemma_int_text_injective(e.coins as int, f.coins as int);
    }
}

/// Every line of the leaderboard shows the coins its entry holds.
pub proof fn leaderboard_lines_show_the_coins_held(entries: Seq<WalletResponse>)
    ensures
        leaderboard_lines(entries).len() == entries.len(),
        forall|k: int|
            0 <= k < entries.len() ==> has_suffix(
                #[trigger] leaderboard_lines(entries)[k],
                int_text(entries[k].coins as int) + "** coins"@,
            ),
{
    assert forall|k: int| 0 <= k < entries.len() implies has_suffix(
        #[trigger] leaderboard_lines(entries)[k],
        int_text(entries[k].coins as int) + "** coins"@,
    ) by {
        leaderboard_shows_the_coins_held(k as nat, entries[k], entries[k]);
    }
}

/// Lines of the leaderboard.
pub open spec fn leaderboard_lines(entries: Seq<WalletResponse>) -> Seq<Seq<char>> {
    Seq::new(entries.len(), |i: int| leaderboard_line(i as nat, entries[i]))
}

/// Body of the leaderboard.
pub open spec fn leaderboard_body(entries: Seq<WalletResponse>) -> Seq<char> {
    if entries.len() == 0 {
        "Aucun joueur pour le moment."@
    } else {
        joined(leaderboard_lines(entries), "\n"@)
    }
}

fn rank_of(i: usize) -> (r: String)
    requires
        i < 0xffff_ffff_ffff_ffff,
    ensures
        r@ == rank_text(i as nat),
{
    if i == 0 {
        owned("\u{1f947}")
    } else if i == 1 {
        owned("\u{1f948}")
    } else if i == 2 {
        owned("\u{1f949}")
    } else {
        let mut s = String::new();
        crate::text::push_u64(&mut s, i as u64 + 1);
        push_str(&mut s, ".");
        s
    }
}

/// Leaderboard embed (`/classement`), with medals for the first three.
pub fn build_leaderboard_embed(entries: &[WalletResponse]) -> (r: Embed)
    ensures
        opt_string(r.title) == Some("\u{1f3c6} Classement — Les plus riches"@),
        opt_string(r.description) == Some(leaderboard_body(entries@)),
        r.color == Some(0xE67E22u32),
        r.fields@.len() == 0,
        r.footer is None,
        r.image is None,
        r.thumbnail is None,
        r.timestamp,
{
    let body = if entries.len() == 0 {
        owned("Aucun joueur pour le moment.")
    } else {
        let mut lines: Vec<String> = Vec::new();
        let mut i: usize = 0;
        while i < entries.len()
            invariant
                i <= entries@.len(),
                views(lines@) == leaderboard_lines(entries@).take(i as int),
            decreases entries@.len() - i,
        {
            let e = &entries[i];
            let mut line = rank_of(i);
            push_str(&mut line, " <@");
            push_str(&mut line, e.user_id.as_str());
            push_str(&mut line, "> — **");
            push_i64(&mut line, e.coins);
            push_str(&mut line, "** coins");
            let ghost before = views(lines@);
            let ghost lv = line@;
            lines.push(line);
            assert(views(lines@) =~= before.push(lv));
            assert(lv == leaderboard_lines(entries@)[i as int]);
            assert(views(lines@) =~= leaderboard_lines(entries@).take(i + 1));
            i = i + 1;
        }
        assert(leaderboard_lines(entries@).take(entries@.len() as int) =~= leaderboard_lines(entries@));
        join_texts(lines.as_slice(), "\n")
    };
    Embed::new().title(owned("\u{1f3c6} Classement — Les plus riches")).description(body).color(
        0xE67E22,
    ).timestamp_now()
}

/// Embed reporting an error of the wheel.
pub fn build_error_embed(message: &str) -> (r: Embed)
    ensures
        opt_string(r.title) == Some("\u{1f300} Roue du Destin"@),
        opt_string(r.description) == Some(message@),
        r.color == Some(0xed4245u32),
        r.fields@.len() == 0,
        r.footer is None,
        r.image is None,
        r.thumbnail is None,
        !r.timestamp,
{
    Embed::new().title(owned("\u{1f300} Roue du Destin")).description(owned(message)).color(0xed4245)
}

/// Embed of a cushion challenge.
pub fn build_coussin_challenge_embed(attacker_id: u64, defender_id: u64, mise: i64) -> (r: Embed)
    ensures
        opt_string(r.title) == Some("🛋️💣 Coussin Piégé !"@),
        opt_string(r.description) == Some("<@"@ + nat_text(attacker_id as nat)
            + "> vient de glisser un coussin sous <@"@ + nat_text(defender_id as nat) + "> — **"@
            + int_text(mise as int) + " coins** sur la table.\n\n<@"@ + nat_text(defender_id as nat)
            + ">, tu t'assois ou tu restes debout ?"@),
        r.color == Some(0xF39C12u32),
        opt_string(r.footer) == Some("Rester debout devant tout le monde, ca se remarque."@),
        r.fields@.len() == 0,
        r.image is None,
        r.thumbnail is None,
        !r.timestamp,
{
    let mut d = owned("<@");
    crate::text::push_u64(&mut d, attacker_id);
    push_str(&mut d, "> vient de glisser un coussin sous <@");
    crate::text::push_u64(&mut d, defender_id);
    push_str(&mut d, "> — **");
    push_i64(&mut d, mise);
    push_str(&mut d, " coins** sur la table.\n\n<@");
    crate::text::push_u64(&mut d, defender_id);
    push_str(&mut d, ">, tu t'assois ou tu restes debout ?");
    Embed::new().title(owned("🛋️💣 Coussin Piégé !")).description(d).color(0xF39C12).footer(
        owned("Rester debout devant tout le monde, ca se remarque."),
    )
}

fn int_string(n: i64) -> (r: String)
    ensures
        r@ == int_text(n as int),
{
    let mut s = String::new();
    push_i64(&mut s, n);
    s
}

/// Description of a cushion profile.
pub open spec fn profile_text(p: CoussinProfileResponse) -> Seq<char> {
    "**"@ + p.title@ + "** · Niveau **"@ + int_text(p.level as int) + "** — "@ + int_text(p.xp as int)
        + " XP\n🛋️ Confort "@ + int_text(p.hp_current as int) + "/"@ + int_text(p.hp_max as int)
        + " · 🪙 "@ + int_text(p.coins as int) + " coins"@
}

/// Fields of a cushion profile, the label of the member's class first.
pub open spec fn profile_fields(p: CoussinProfileResponse, classe: Seq<char>) -> Seq<(Seq<char>, Seq<char>, bool)> {
    seq![
        ("Maniere de s'asseoir"@, classe, true),
        ("Impact / Moelleux"@, int_text(p.atk as int) + " / "@ + int_text(p.def as int), true),
        ("Points a placer"@, int_text(p.stat_points as int), true),
        ("Palmares"@, int_text(p.total_wins as int) + " assis · "@ + int_text(p.total_losses as int)
            + " leves · "@ + int_text(p.total_draws as int) + " match nuls"@, false),
        ("Trouve sous les coussins"@, int_text(p.total_stolen as int) + " coins"@, true),
        ("Fois reste debout"@, int_text(p.cowardice_count as int), true),
        ("Bazar declenche"@, int_text(p.chaos_events as int), true),
    ]
}

/// A member's place on the sofa; `classe` is the label of the member's way
/// of sitting (from the catalogue of classes).
pub fn build_coussin_profile_embed(p: &CoussinProfileResponse, classe: &str) -> (r: Embed)
    ensures
        opt_string(r.title) == Some("🛋️ Place de "@ + p.username@ + " sur le canape"@),
        r.color == Some(0x5865F2u32),
        opt_string(r.description) == Some(profile_text(*p)),
        fields_view(r.fields@) == profile_fields(*p, classe@),
        r.footer is None,
        r.image is None,
        r.thumbnail is None,
        !r.timestamp,
{
    let mut title = owned("🛋️ Place de ");
    push_str(&mut title, p.username.as_str());
    push_str(&mut title, " sur le canape");
    let mut d = owned("**");
    push_str(&mut d, p.title.as_str());
    push_str(&mut d, "** · Niveau **");
    push_i64(&mut d, p.level as i64);
    push_str(&mut d, "** — ");
    push_i64(&mut d, p.xp);
    push_str(&mut d, " XP\n🛋️ Confort ");
    push_i64(&mut d, p.hp_current as i64);
    push_str(&mut d, "/");
    push_i64(&mut d, p.hp_max as i64);
    push_str(&mut d, " · 🪙 ");
    push_i64(&mut d, p.coins);
    push_str(&mut d, " coins");
    let mut im = int_string(p.atk as i64);
    push_str(&mut im, " / ");
    push_i64(&mut im, p.def as i64);
    let mut palmares = int_string(p.total_wins as i64);
    push_str(&mut palmares, " assis · ");
    push_i64(&mut palmares, p.total_losses as i64);
    push_str(&mut palmares, " leves · ");
    push_i64(&mut palmares, p.total_draws as i64);
    push_str(&mut palmares, " match nuls");
    let e = Embed::new().title(title).color(0x5865F2).description(d);
    let e = e.field(owned("Maniere de s'asseoir"), owned(classe), true);
    let e = e.field(owned("Impact / Moelleux"), im, true);
    let e = e.field(owned("Points a placer"), int_string(p.stat_points as i64), true);
    let e = e.field(owned("Palmares"), palmares, false);
    let e = e.field(owned("Trouve sous les coussins"), coins_text(p.total_stolen), true);
    let e = e.field(owned("Fois reste debout"), int_string(p.cowardice_count as i64), true);
    let e = e.field(owned("Bazar declenche"), int_string(p.chaos_events as i64), true);
    assert(fields_view(e.fields@) =~= profile_fields(*p, classe@));
    e
}

/// A purchase from the cushion chest (private reply); `nom_objet` is the
/// name of the item in the catalogue.
pub fn build_coussin_purchase_embed(nom_objet: &str, balance: i64) -> (r: Embed)
    ensures
        opt_string(r.title) == Some("🛋️ Planque effectuee"@),
        opt_string(r.description) == Some("**"@ + nom_objet@ + "** est maintenant sous ton coussin."@),
        fields_view(r.fields@) == seq![("Solde"@, int_text(balance as int) + " coins"@, true)],
        r.color == Some(0xF39C12u32),
        r.footer is None,
        r.image is None,
        r.thumbnail is None,
        !r.timestamp,
{
    let mut d = owned("**");
    push_str(&mut d, nom_objet);
    push_str(&mut d, "** est maintenant sous ton coussin.");
    let e = Embed::new().title(owned("🛋️ Planque effectuee")).description(d);
    let e = e.field(owned("Solde"), coins_text(balance), true);
    let e = e.color(0xF39C12);
    assert(fields_view(e.fields@) =~= seq![("Solde"@, int_text(balance as int) + " coins"@, true)]);
    e
}

/// The anti-stain guarantee, signed with a dubious seller or not.
pub fn build_coussin_insurance_embed(is_scam: bool, expires_at: &str) -> (r: Embed)
    ensures
        opt_string(r.title) == Some(if is_scam { "⚠️ Garantie signee"@ } else { "🧼 Garantie anti-tache active"@ }),
        opt_string(r.description) == Some(
            if is_scam {
                "Le vendeur a souri un peu trop vite et les petites lignes sont illisibles.\nCouverture annoncee jusqu'a **"@
                    + expires_at@ + "**."@
            } else {
                "Tes pertes sont couvertes jusqu'a **"@ + expires_at@ + "**."@
            },
        ),
        r.color == Some(if is_scam { 0xE67E22u32 } else { 0x2ECC71u32 }),
        r.fields@.len() == 0,
        r.footer is None,
        r.image is None,
        r.thumbnail is None,
        !r.timestamp,
{
    if is_scam {
        let mut d = owned("Le vendeur a souri un peu trop vite et les petites lignes sont illisibles.\nCouverture annoncee jusqu'a **");
        push_str(&mut d, expires_at);
        push_str(&mut d, "**.");
        Embed::new().title(owned("⚠️ Garantie signee")).description(d).color(0xE67E22)
    } else {
        let mut d = owned("Tes pertes sont couvertes jusqu'a **");
        push_str(&mut d, expires_at);
        push_str(&mut d, "**.");
        Embed::new().title(owned("🧼 Garantie anti-tache active")).description(d).color(0x2ECC71)
    }
}

/// Line of one item under the cushion.
pub open spec fn inventory_line(name: Seq<char>, quantity: i32) -> Seq<char> {
    "• **"@ + name + "** ×"@ + int_text(quantity as int)
}

/// Body of the inventory: one line per item, named by `names`.
pub open spec fn inventory_body(items: Seq<CoussinInventoryItem>, names: Seq<Seq<char>>) -> Seq<char> {
    if items.len() == 0 {
        "Rien sous ton coussin. Le coffre s'ouvre avec `/shop`."@
    } else {
        joined(Seq::new(items.len(), |i: int| inventory_line(names[i], items[i].quantity)), "\n"@)
    }
}

/// What is hidden under the member's cushion (private reply); `noms` holds
/// the catalogue name of each item, in the same order.
pub fn build_coussin_inventory_embed(items: &[CoussinInventoryItem], noms: &[String]) -> (r: Embed)
    requires
        noms@.len() == items@.len(),
    ensures
        opt_string(r.title) == Some("🛋️ Sous ton coussin"@),
        opt_string(r.description) == Some(inventory_body(items@, views(noms@))),
        r.color == Some(0x5865F2u32),
        r.fields@.len() == 0,
        r.footer is None,
        r.image is None,
        r.thumbnail is None,
        !r.timestamp,
{
    let ghost want = Seq::new(items@.len(), |i: int| inventory_line(views(noms@)[i], items@[i].quantity));
    let body = if items.len() == 0 {
        owned("Rien sous ton coussin. Le coffre s'ouvre avec `/shop`.")
    } else {
        let mut lines: Vec<String> = Vec::new();
        let mut i: usize = 0;
        while i < items.len()
            invariant
                i <= items@.len(),
                noms@.len() == items@.len(),
                want == Seq::new(items@.len(), |i: int| inventory_line(views(noms@)[i], items@[i].quantity)),
                views(lines@) == want.take(i as int),
            decreases items@.len() - i,
        {
            let mut line = owned("• **");
            push_str(&mut line, noms[i].as_str());
            push_str(&mut line, "** ×");
            push_i64(&mut line, items[i].quantity as i64);
            let ghost before = views(lines@);
            let ghost lv = line@;
            lines.push(line);
            assert(views(lines@) =~= before.push(lv));
            assert(lv == want[i as int]);
            assert(views(lines@) =~= want.take(i + 1));
            i = i + 1;
        }
        assert(want.take(items@.len() as int) =~= want);
        join_texts(lines.as_slice(), "\n")
    };
    Embed::new().title(owned("🛋️ Sous ton coussin")).description(body).color(0x5865F2)
}

} // verus!
