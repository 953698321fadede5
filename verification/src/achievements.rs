//! Achievements: the member's list, the reading of an unlock event, and the
//! public announcement with its guild settings.

use vstd::prelude::*;
use vstd::string::*;
use vstd::std_specs::cmp::PartialEqSpecImpl;

use crate::api_client::AchievementProgress;
use crate::config::{lookup, GuildConfig};
use crate::embeds::{fields_view, Embed};
use crate::event_bus::ACHIEVEMENT_UNLOCKED;
use crate::json::{json_document, json_get, parse_json, str_field, Json};
use crate::portal::cover_full_url;
use crate::text::{
    byte_len, chars_of, digit_char, utf8_width, lemma_utf8_len_bounds, lemma_utf8_len_concat, nat_text, opt_string,
    opt_text, owned, parse_u64, parse_u64_spec, push_str, push_u64, same_text, strip_end_bound,
    strip_start_bound, text_of_range, trim, trim_bounds, trimmed, utf8_len,
};

verus! {

/// Module of these settings in the guild configuration.
pub const MODULE_BOT_NAME: &'static str = "nexus-achievements";

// ---------------------------------------------------------------------
// The list of a member
// ---------------------------------------------------------------------

/// Line of an achievement in a list.
pub open spec fn progress_line(p: AchievementProgress) -> Seq<char> {
    "• **"@ + p.name@ + "** — "@ + p.description@ + "\n"@
}

/// Lines written so far, how many, and whether the list stopped: it stops
/// at the first line that would take it past 950 bytes.
pub open spec fn list_fold(items: Seq<AchievementProgress>) -> (Seq<char>, nat, bool)
    decreases items.len(),
{
    if items.len() == 0 {
        (Seq::empty(), 0, false)
    } else {
        let prev = list_fold(items.drop_last());
        if prev.2 {
            prev
        } else {
            let l = progress_line(items.last());
            if utf8_len(prev.0) + utf8_len(l) > 950 {
                (prev.0, prev.1, true)
            } else {
                (prev.0 + l, prev.1 + 1, false)
            }
        }
    }
}

/// A list bounded by the size of an embed field: `vide` when there is
/// nothing, else the lines that fit and how many were left out.
pub open spec fn list_text(items: Seq<AchievementProgress>, vide: Seq<char>) -> Seq<char> {
    if items.len() == 0 {
        vide
    } else {
        let f = list_fold(items);
        f.0 + if f.1 < items.len() {
            "_… et "@ + nat_text((items.len() - f.1) as nat) + " de plus._"@
        } else {
            Seq::empty()
        }
    }
}

proof fn lemma_list_fold_bounds(items: Seq<AchievementProgress>)
    ensures
        list_fold(items).1 <= items.len(),
        utf8_len(list_fold(items).0) <= 950,
    decreases items.len(),
{
    if items.len() > 0 {
        lemma_list_fold_bounds(items.drop_last());
        lemma_utf8_len_concat(list_fold(items.drop_last()).0, progress_line(items.last()));
    }
}

fn line_of(p: &AchievementProgress) -> (r: String)
    ensures
        r@ == progress_line(*p),
{
    let mut l = owned("• **");
    push_str(&mut l, p.name.as_str());
    push_str(&mut l, "** — ");
    push_str(&mut l, p.description.as_str());
    push_str(&mut l, "\n");
    l
}

/// Powers of ten.
pub open spec fn pow10(k: nat) -> nat
    decreases k,
{
    if k == 0 {
        1
    } else {
        10 * pow10((k - 1) as nat)
    }
}

proof fn lemma_nat_text_width(n: nat, k: nat)
    requires
        k >= 1,
        n < pow10(k),
    ensures
        utf8_len(nat_text(n)) == nat_text(n).len(),
        nat_text(n).len() <= k,
    decreases n,
{
    let d = digit_char(n % 10);
    assert(utf8_width(d) == 1);
    if n >= 10 {
        assert(pow10(1) == 10) by {
            reveal_with_fuel(pow10, 2);
        }
        assert(k >= 2);
        assert(pow10(k) == 10 * pow10((k - 1) as nat));
        assert(n / 10 < pow10((k - 1) as nat));
        lemma_nat_text_width(n / 10, (k - 1) as nat);
        assert(nat_text(n) == nat_text(n / 10).push(d));
        assert(nat_text(n).drop_last() =~= nat_text(n / 10));
    } else {
        assert(n % 10 == n);
        assert(nat_text(n) == seq![d]);
        assert(nat_text(n).drop_last() =~= Seq::<char>::empty());
        assert(utf8_len(Seq::<char>::empty()) == 0);
    }
}

/// A list of achievements stays within the value of an embed field (1024
/// characters, and as many bytes): whatever the achievements, as soon as
/// there is one.
pub proof fn achievement_list_fits_a_field(items: Seq<AchievementProgress>, vide: Seq<char>)
    requires
        items.len() > 0,
        items.len() <= u64::MAX,
    ensures
        utf8_len(list_text(items, vide)) <= 1024,
        list_text(items, vide).len() <= 1024,
{
    lemma_list_fold_bounds(items);
    let f = list_fold(items);
    reveal_strlit("_… et ");
    reveal_strlit(" de plus._");
    let a = "_… et "@;
    let b = " de plus._"@;
    assert(a =~= seq!['_', '…', ' ', 'e', 't', ' ']);
    assert(b =~= seq![' ', 'd', 'e', ' ', 'p', 'l', 'u', 's', '.', '_']);
    assert(utf8_len(a) == 8) by {
        reveal_with_fuel(utf8_len, 7);
    }
    assert(utf8_len(b) == 10) by {
        reveal_with_fuel(utf8_len, 11);
    }
    assert(pow10(20) == 100000000000000000000nat) by {
        reveal_with_fuel(pow10, 21);
    }
    if f.1 < items.len() {
        let n = (items.len() - f.1) as nat;
        lemma_nat_text_width(n, 20);
        let d = nat_text(n);
        lemma_utf8_len_concat(a, d);
        lemma_utf8_len_concat(a + d, b);
        lemma_utf8_len_concat(f.0, a + d + b);
        assert(list_text(items, vide) == f.0 + (a + d + b));
    } else {
        assert(f.0 + Seq::<char>::empty() =~= f.0);
    }
    lemma_utf8_len_bounds(list_text(items, vide));
}

/// A list of achievements bounded by the size of an embed field.
pub fn liste(items: &[AchievementProgress], vide: &str) -> (r: String)
    ensures
        r@ == list_text(items@, vide@),
{
    if items.len() == 0 {
        return owned(vide);
    }
    let mut out = String::new();
    let mut out_len: u128 = 0;
    let mut shown: usize = 0;
    let mut stopped = false;
    let mut i: usize = 0;
    while i < items.len()
        invariant
            i <= items@.len(),
            shown <= i,
            (out@, shown as nat, stopped) == list_fold(items@.take(i as int)),
            out_len == utf8_len(out@),
            out_len <= 950,
        decreases items@.len() - i,
    {
        assert(items@.take(i + 1).drop_last() =~= items@.take(i as int));
        assert(items@.take(i + 1).last() == items@[i as int]);
        if !stopped {
            let l = line_of(&items[i]);
            let n = byte_len(l.as_str());
            let lc = l.as_str().unicode_len();
            proof {
                lemma_utf8_len_bounds(l@);
                assert(n <= 4 * lc);
            }
            if out_len + n > 950 {
                stopped = true;
            } else {
                let ghost before = out@;
                push_str(&mut out, l.as_str());
                proof {
                    lemma_utf8_len_concat(before, l@);
                }
                out_len = out_len + n;
                shown = shown + 1;
            }
        }
        i = i + 1;
    }
    assert(items@.take(items@.len() as int) =~= items@);
    if shown < items.len() {
        push_str(&mut out, "_… et ");
        push_u64(&mut out, (items.len() - shown) as u64);
        push_str(&mut out, " de plus._");
    } else {
        let ghost b = out@;
        assert(b + Seq::<char>::empty() =~= b);
    }
    out
}

// ---------------------------------------------------------------------
// Images
// ---------------------------------------------------------------------

/// Absolute address of an achievement's image: nothing for a blank one,
/// kept when absolute, else joined to the web front's base address.
pub open spec fn absolute_image(icon: Seq<char>, base: Option<Seq<char>>) -> Option<Seq<char>> {
    let t = trim(icon);
    if t.len() == 0 {
        None
    } else {
        cover_full_url(t, base)
    }
}

/// Makes an achievement's image absolute for Discord (`web_front_url` is
/// the base address of the web front, when it is configured).
pub fn image_absolue(icon: &str, web_front_url: Option<&str>) -> (r: Option<String>)
    ensures
        opt_string(r) == absolute_image(icon@, opt_text(web_front_url)),
{
    let v = chars_of(icon);
    let (a, b) = trim_bounds(&v);
    if a == b {
        return None;
    }
    let p = text_of_range(&v, a, b);
    if crate::text::starts_with_text(p.as_str(), "https://") || crate::text::starts_with_text(p.as_str(), "http://") {
        return Some(p);
    }
    let base = match web_front_url {
        Some(x) => x,
        None => return None,
    };
    let bv = chars_of(base);
    let (ba, bb) = trim_bounds(&bv);
    let bt = crate::text::slice_chars(&bv, ba, bb);
    let be = strip_end_bound(&bt, 0, bt.len(), '/');
    assert(bt@.subrange(0, bt@.len() as int) =~= bt@);
    if be == 0 {
        return None;
    }
    let mut full = text_of_range(&bt, 0, be);
    crate::text::push_char(&mut full, '/');
    let ps = strip_start_bound(&v, a, b, '/');
    let rest = text_of_range(&v, ps, b);
    push_str(&mut full, rest.as_str());
    Some(full)
}

// ---------------------------------------------------------------------
// Unlock events
// ---------------------------------------------------------------------

/// What an unlock event carries that is worth announcing.
#[derive(Debug, Clone, Eq)]
pub struct HautFaitDebloque {
    pub guild_id: String,
    pub guild_num: u64,
    pub user_id: String,
    pub nom: String,
    pub description: String,
    pub jeu: Option<String>,
    pub icon_url: Option<String>,
}

/// An unlock as plain values.
pub open spec fn fait_view(f: HautFaitDebloque) -> (Seq<char>, u64, Seq<char>, Seq<char>, Seq<char>, Option<Seq<char>>, Option<Seq<char>>) {
    (f.guild_id@, f.guild_num, f.user_id@, f.nom@, f.description@, opt_string(f.jeu), opt_string(f.icon_url))
}

fn same_opt(a: &Option<String>, b: &Option<String>) -> (r: bool)
    ensures
        r == (opt_string(*a) == opt_string(*b)),
{
    match (a, b) {
        (Some(x), Some(y)) => same_text(x.as_str(), y.as_str()),
        (None, None) => true,
        _ => false,
    }
}

impl PartialEq for HautFaitDebloque {
    fn eq(&self, other: &Self) -> (r: bool) {
        same_text(self.guild_id.as_str(), other.guild_id.as_str()) && self.guild_num == other.guild_num
            && same_text(self.user_id.as_str(), other.user_id.as_str()) && same_text(
            self.nom.as_str(),
            other.nom.as_str(),
        ) && same_text(self.description.as_str(), other.description.as_str()) && same_opt(
            &self.jeu,
            &other.jeu,
        ) && same_opt(&self.icon_url, &other.icon_url)
    }
}

impl PartialEqSpecImpl for HautFaitDebloque {
    open spec fn obeys_eq_spec() -> bool {
        true
    }

    open spec fn eq_spec(&self, other: &Self) -> bool {
        fait_view(*self) == fait_view(*other)
    }
}

/// The unlock an envelope carries: it must be of the unlock kind and name
/// a guild (a decimal number) and a member; a missing name reads `Haut
/// fait`, a missing description is empty, the game and image are optional.
pub open spec fn unlock_spec(env: Json) -> Option<(Seq<char>, u64, Seq<char>, Seq<char>, Seq<char>, Option<Seq<char>>, Option<Seq<char>>)> {
    if str_field(env, "event"@) != Some(ACHIEVEMENT_UNLOCKED@) {
        None
    } else {
        match json_get(env, "data"@) {
            None => None,
            Some(data) => match (str_field(data, "guild_id"@), str_field(data, "discord_user_id"@)) {
                (Some(guild), Some(user)) => match parse_u64_spec(guild) {
                    Some(num) => Some((
                        guild,
                        num,
                        user,
                        match str_field(data, "achievement_name"@) {
                            Some(n) => n,
                            None => "Haut fait"@,
                        },
                        match str_field(data, "achievement_description"@) {
                            Some(d) => d,
                            None => Seq::empty(),
                        },
                        str_field(data, "game"@),
                        str_field(data, "icon_url"@),
                    )),
                    None => None,
                },
                _ => None,
            },
        }
    }
}

fn field_text(j: &Json, key: &str) -> (r: Option<String>)
    ensures
        opt_string(r) == str_field(*j, key@),
{
    match j.str_field(key) {
        Some(s) => Some(owned(s.as_str())),
        None => None,
    }
}

/// The unlock an envelope already read carries, if it is one.
pub fn haut_fait(env: &Json) -> (r: Option<HautFaitDebloque>)
    ensures
        r matches Some(f) ==> unlock_spec(*env) == Some(fait_view(f)),
        r is None ==> unlock_spec(*env) is None,
{
    let kind_ok = match env.str_field("event") {
        Some(e) => same_text(e.as_str(), ACHIEVEMENT_UNLOCKED),
        None => false,
    };
    if !kind_ok {
        return None;
    }
    let data = match env.get("data") {
        Some(d) => d,
        None => return None,
    };
    let guild_id = match field_text(data, "guild_id") {
        Some(g) => g,
        None => return None,
    };
    let user_id = match field_text(data, "discord_user_id") {
        Some(u) => u,
        None => return None,
    };
    let guild_num = match parse_u64(guild_id.as_str()) {
        Some(n) => n,
        None => return None,
    };
    let nom = match field_text(data, "achievement_name") {
        Some(n) => n,
        None => owned("Haut fait"),
    };
    let description = match field_text(data, "achievement_description") {
        Some(d) => d,
        None => String::new(),
    };
    Some(HautFaitDebloque {
        guild_id,
        guild_num,
        user_id,
        nom,
        description,
        jeu: field_text(data, "game"),
        icon_url: field_text(data, "icon_url"),
    })
}

/// Reads an unlock event; `None` as soon as something needed to announce it
/// honestly is missing.
pub fn parse_haut_fait(payload_json: &str) -> (r: Option<HautFaitDebloque>)
    ensures
        r matches Some(f) ==> (match json_document(payload_json@) {
            Some(env) => unlock_spec(env),
            None => None,
        }) == Some(fait_view(f)),
        r is None ==> (match json_document(payload_json@) {
            Some(env) => unlock_spec(env),
            None => None,
        }) is None,
{
    match parse_json(payload_json) {
        Some(env) => haut_fait(&env),
        None => None,
    }
}

// ---------------------------------------------------------------------
// Settings of the announcement
// ---------------------------------------------------------------------

/// A switch of the configuration: `true` only when written so, the default
/// when absent.
pub open spec fn switch_on(cfg: Seq<(Seq<char>, Seq<char>)>, key: Seq<char>, default: bool) -> bool {
    match lookup(cfg, key) {
        Some(v) => v == "true"@,
        None => default,
    }
}

/// A positive id stored under `key` (spaces around it tolerated).
pub open spec fn positive_id(cfg: Seq<(Seq<char>, Seq<char>)>, key: Seq<char>) -> Option<u64> {
    match lookup(cfg, key) {
        Some(v) => match parse_u64_spec(trim(v)) {
            Some(id) => if id > 0 { Some(id) } else { None },
            None => None,
        },
        None => None,
    }
}

fn switch(cfg: &GuildConfig, key: &str, default: bool) -> (r: bool)
    requires
        cfg.wf(),
    ensures
        r == switch_on(cfg@, key@, default),
{
    match cfg.get(key) {
        Some(v) => same_text(v.as_str(), "true"),
        None => default,
    }
}

fn id_setting(cfg: &GuildConfig, key: &str) -> (r: Option<u64>)
    requires
        cfg.wf(),
    ensures
        r == positive_id(cfg@, key@),
{
    match cfg.get(key) {
        Some(v) => {
            let t = trimmed(v.as_str());
            match parse_u64(t.as_str()) {
                Some(id) => if id > 0 { Some(id) } else { None },
                None => None,
            }
        },
        None => None,
    }
}

/// Channel where an unlock is announced: none when the module or the
/// announcement is switched off (both on by default), or no valid channel
/// is chosen.
pub open spec fn announce_channel(cfg: Seq<(Seq<char>, Seq<char>)>) -> Option<u64> {
    if !switch_on(cfg, "enabled"@, true) || !switch_on(cfg, "announce_enabled"@, true) {
        None
    } else {
        positive_id(cfg, "announce_channel_id"@)
    }
}

/// Channel where to announce, from the guild's settings.
pub fn salon_d_annonce(config: &GuildConfig) -> (r: Option<u64>)
    requires
        config.wf(),
    ensures
        r == announce_channel(config@),
{
    if !switch(config, "enabled", true) || !switch(config, "announce_enabled", true) {
        return None;
    }
    id_setting(config, "announce_channel_id")
}

/// Role to mention, if one is set; no mention by default.
pub fn role_a_mentionner(config: &GuildConfig) -> (r: Option<u64>)
    requires
        config.wf(),
    ensures
        r == positive_id(config@, "mention_role_id"@),
{
    id_setting(config, "mention_role_id")
}

/// Looking at another member's achievements is allowed unless switched off
/// (`false`).
pub fn profils_publics(config: &GuildConfig) -> (r: bool)
    requires
        config.wf(),
    ensures
        r == match lookup(config@, "public_profiles"@) {
            Some(v) => v != "false"@,
            None => true,
        },
{
    match config.get("public_profiles") {
        Some(v) => !same_text(v.as_str(), "false"),
        None => true,
    }
}

// ---------------------------------------------------------------------
// Announcement
// ---------------------------------------------------------------------

/// A message to post: its text, and an embed.
pub struct Annonce {
    pub content: Option<String>,
    pub embed: Embed,
}

/// The public announcement of an unlock (`web_front_url` makes the image
/// absolute); the configured role is mentioned in the text.
pub fn build_annonce(fait: &HautFaitDebloque, role: Option<u64>, web_front_url: Option<&str>) -> (r: Annonce)
    ensures
        opt_string(r.content) == match role {
            Some(id) => Some("<@&"@ + nat_text(id as nat) + ">"@),
            None => None,
        },
        opt_string(r.embed.title) == Some("🏆 Haut fait debloque"@),
        opt_string(r.embed.description) == Some("<@"@ + fait.user_id@ + "> vient de decrocher **"@ + fait.nom@ + "** !"@),
        r.embed.color == Some(0xf1c40fu32),
        opt_string(r.embed.footer) == Some("Hauts faits | Nexus"@),
        r.embed.timestamp,
        fields_view(r.embed.fields@) == (if fait.description@.len() > 0 {
            seq![("Haut fait"@, fait.description@, false)]
        } else {
            Seq::empty()
        }) + match fait.jeu {
            Some(j) => seq![("Jeu"@, j@, true)],
            None => Seq::empty(),
        },
        opt_string(r.embed.thumbnail) == match fait.icon_url {
            Some(i) => absolute_image(i@, opt_text(web_front_url)),
            None => None,
        },
        r.embed.image is None,
{
    let mut d = owned("<@");
    push_str(&mut d, fait.user_id.as_str());
    push_str(&mut d, "> vient de decrocher **");
    push_str(&mut d, fait.nom.as_str());
    push_str(&mut d, "** !");
    let mut e = Embed::new().title(owned("🏆 Haut fait debloque")).description(d).color(0xf1c40f).footer(
        owned("Hauts faits | Nexus"),
    ).timestamp_now();
    let ghost f0 = fields_view(e.fields@);
    if fait.description.as_str().unicode_len() > 0 {
        e = e.field(owned("Haut fait"), owned(fait.description.as_str()), false);
    }
    let ghost f1 = fields_view(e.fields@);
    assert(f1 =~= f0 + (if fait.description@.len() > 0 {
        seq![("Haut fait"@, fait.description@, false)]
    } else {
        Seq::empty()
    }));
    match &fait.jeu {
        Some(j) => {
            e = e.field(owned("Jeu"), owned(j.as_str()), true);
        },
        None => {},
    }
    assert(fields_view(e.fields@) =~= f1 + match fait.jeu {
        Some(j) => seq![("Jeu"@, j@, true)],
        None => Seq::empty(),
    });
    match &fait.icon_url {
        Some(i) => match image_absolue(i.as_str(), web_front_url) {
            Some(url) => {
                e = e.thumbnail(url);
            },
            None => {},
        },
        None => {},
    }
    let content = match role {
        Some(id) => {
            let mut c = owned("<@&");
            push_u64(&mut c, id);
            push_str(&mut c, ">");
            Some(c)
        },
        None => None,
    };
    Annonce { content, embed: e }
}

// ---------------------------------------------------------------------
// The card of a member
// ---------------------------------------------------------------------

/// The achievement is unlocked.
pub open spec fn is_unlocked(p: AchievementProgress) -> bool {
    p.unlocked_at is Some
}

/// The achievements unlocked, in order.
pub open spec fn unlocked_of(v: Seq<AchievementProgress>) -> Seq<AchievementProgress>
    decreases v.len(),
{
    if v.len() == 0 {
        v
    } else if is_unlocked(v.last()) {
        unlocked_of(v.drop_last()).push(v.last())
    } else {
        unlocked_of(v.drop_last())
    }
}

/// The achievements still to get, in order.
pub open spec fn remaining_of(v: Seq<AchievementProgress>) -> Seq<AchievementProgress>
    decreases v.len(),
{
    if v.len() == 0 {
        v
    } else if !is_unlocked(v.last()) {
        remaining_of(v.drop_last()).push(v.last())
    } else {
        remaining_of(v.drop_last())
    }
}

/// Image of the card: that of the first unlocked achievement whose image
/// can be made absolute.
pub open spec fn card_image(v: Seq<AchievementProgress>, base: Option<Seq<char>>) -> Option<Seq<char>>
    decreases v.len(),
{
    if v.len() == 0 {
        None
    } else {
        match v[0].icon_url {
            Some(i) => match absolute_image(i@, base) {
                Some(u) => Some(u),
                None => card_image(v.drop_first(), base),
            },
            None => card_image(v.drop_first(), base),
        }
    }
}

fn clone_progress(p: &AchievementProgress) -> (r: AchievementProgress)
    ensures
        r.name@ == p.name@,
        r.description@ == p.description@,
        opt_string(r.icon_url) == opt_string(p.icon_url),
        r.unlocked_at is Some == p.unlocked_at is Some,
{
    AchievementProgress {
        name: owned(p.name.as_str()),
        description: owned(p.description.as_str()),
        icon_url: match &p.icon_url {
            Some(i) => Some(owned(i.as_str())),
            None => None,
        },
        unlocked_at: match &p.unlocked_at {
            Some(u) => Some(owned(u.as_str())),
            None => None,
        },
    }
}

/// The same achievement, field for field.
pub open spec fn same_progress(a: AchievementProgress, b: AchievementProgress) -> bool {
    a.name@ == b.name@ && a.description@ == b.description@ && opt_string(a.icon_url) == opt_string(b.icon_url)
        && (a.unlocked_at is Some) == (b.unlocked_at is Some)
}

/// Two lists of the same achievements.
pub open spec fn same_list(a: Seq<AchievementProgress>, b: Seq<AchievementProgress>) -> bool {
    a.len() == b.len() && forall|i: int| 0 <= i < a.len() ==> same_progress(#[trigger] a[i], b[i])
}

proof fn lemma_same_list_text(a: Seq<AchievementProgress>, b: Seq<AchievementProgress>, vide: Seq<char>)
    requires
        same_list(a, b),
    ensures
        list_text(a, vide) == list_text(b, vide),
        list_fold(a) == list_fold(b),
    decreases a.len(),
{
    if a.len() > 0 {
        assert(same_list(a.drop_last(), b.drop_last())) by {
            assert forall|i: int| 0 <= i < a.len() - 1 implies same_progress(#[trigger] a.drop_last()[i], b.drop_last()[i]) by {
                assert(same_progress(a[i], b[i]));
            }
        }
        lemma_same_list_text(a.drop_last(), b.drop_last(), vide);
        assert(same_progress(a[a.len() - 1], b[b.len() - 1]));
        assert(progress_line(a.last()) == progress_line(b.last()));
    }
}

/// Splits the achievements into those unlocked and those still to get,
/// each in order.
pub fn partition_progress(progress: &[AchievementProgress]) -> (r: (Vec<AchievementProgress>, Vec<AchievementProgress>))
    ensures
        same_list(r.0@, unlocked_of(progress@)),
        same_list(r.1@, remaining_of(progress@)),
{
    let mut done: Vec<AchievementProgress> = Vec::new();
    let mut left: Vec<AchievementProgress> = Vec::new();
    let mut i: usize = 0;
    while i < progress.len()
        invariant
            i <= progress@.len(),
            same_list(done@, unlocked_of(progress@.take(i as int))),
            same_list(left@, remaining_of(progress@.take(i as int))),
        decreases progress@.len() - i,
    {
        let ghost t = progress@.take(i + 1);
        assert(t.drop_last() =~= progress@.take(i as int));
        assert(t.last() == progress@[i as int]);
        let c = clone_progress(&progress[i]);
        if progress[i].unlocked_at.is_some() {
            let ghost d0 = done@;
            done.push(c);
            assert(unlocked_of(t) == unlocked_of(progress@.take(i as int)).push(progress@[i as int]));
            assert(remaining_of(t) == remaining_of(progress@.take(i as int)));
            assert forall|k: int| 0 <= k < done@.len() implies same_progress(#[trigger] done@[k], unlocked_of(t)[k]) by {
                if k < d0.len() {
                    assert(done@[k] == d0[k]);
                }
            }
        } else {
            let ghost l0 = left@;
            left.push(c);
            assert(remaining_of(t) == remaining_of(progress@.take(i as int)).push(progress@[i as int]));
            assert(unlocked_of(t) == unlocked_of(progress@.take(i as int)));
            assert forall|k: int| 0 <= k < left@.len() implies same_progress(#[trigger] left@[k], remaining_of(t)[k]) by {
                if k < l0.len() {
                    assert(left@[k] == l0[k]);
                }
            }
        }
        i = i + 1;
    }
    assert(progress@.take(progress@.len() as int) =~= progress@);
    (done, left)
}

proof fn lemma_same_list_image(a: Seq<AchievementProgress>, b: Seq<AchievementProgress>, base: Option<Seq<char>>)
    requires
        same_list(a, b),
    ensures
        card_image(a, base) == card_image(b, base),
    decreases a.len(),
{
    if a.len() > 0 {
        assert(same_progress(a[0], b[0]));
        assert(same_list(a.drop_first(), b.drop_first())) by {
            assert forall|i: int| 0 <= i < a.len() - 1 implies same_progress(#[trigger] a.drop_first()[i], b.drop_first()[i]) by {
                assert(same_progress(a[i + 1], b[i + 1]));
            }
        }
        lemma_same_list_image(a.drop_first(), b.drop_first(), base);
    }
}

fn first_image(v: &[AchievementProgress], web_front_url: Option<&str>) -> (r: Option<String>)
    ensures
        opt_string(r) == card_image(v@, opt_text(web_front_url)),
{
    let mut i: usize = 0;
    assert(v@.skip(0) =~= v@);
    while i < v.len()
        invariant
            i <= v@.len(),
            card_image(v@, opt_text(web_front_url)) == card_image(v@.skip(i as int), opt_text(web_front_url)),
        decreases v@.len() - i,
    {
        let ghost rest = v@.skip(i as int);
        assert(rest[0] == v@[i as int]);
        assert(rest.drop_first() =~= v@.skip(i + 1));
        match &v[i].icon_url {
            Some(icon) => match image_absolue(icon.as_str(), web_front_url) {
                Some(u) => return Some(u),
                None => {},
            },
            None => {},
        }
        i = i + 1;
    }
    assert(v@.skip(v@.len() as int) =~= Seq::<AchievementProgress>::empty());
    None
}

/// The card of a member's achievements (`/haut-faits`): how many are
/// unlocked, the list of them, and those still to get when there are.
pub fn progress_card(user_id: u64, progress: &[AchievementProgress], web_front_url: Option<&str>) -> (r: Embed)
    ensures
        opt_string(r.title) == Some("🏆 Hauts faits — "@ + nat_text(unlocked_of(progress@).len()) + " / "@
            + nat_text(progress@.len()) + ""@),
        opt_string(r.description) == Some("<@"@ + nat_text(user_id as nat) + ">"@),
        r.color == Some(0xf1c40fu32),
        opt_string(r.footer) == Some("Hauts faits | Nexus"@),
        opt_string(r.thumbnail) == card_image(unlocked_of(progress@), opt_text(web_front_url)),
        fields_view(r.fields@) == seq![
            ("Debloques ("@ + nat_text(unlocked_of(progress@).len()) + ")"@,
             list_text(unlocked_of(progress@), "_Aucun pour l'instant._"@), false),
        ] + if remaining_of(progress@).len() > 0 {
            seq![("A decrocher ("@ + nat_text(remaining_of(progress@).len()) + ")"@,
                  list_text(remaining_of(progress@), "—"@), false)]
        } else {
            Seq::empty()
        },
        r.image is None,
        !r.timestamp,
{
    let (done, left) = partition_progress(progress);
    proof {
        reveal_strlit("");
        lemma_same_list_text(done@, unlocked_of(progress@), "_Aucun pour l'instant._"@);
        lemma_same_list_text(left@, remaining_of(progress@), "—"@);
        lemma_same_list_image(done@, unlocked_of(progress@), opt_text(web_front_url));
    }
    let mut title = owned("🏆 Hauts faits — ");
    push_u64(&mut title, done.len() as u64);
    push_str(&mut title, " / ");
    push_u64(&mut title, progress.len() as u64);
    assert(title@ =~= title@ + ""@);
    let mut d = owned("<@");
    push_u64(&mut d, user_id);
    push_str(&mut d, ">");
    let mut e = Embed::new().title(title).description(d).color(0xf1c40f).footer(owned("Hauts faits | Nexus"));
    proof {
        assert forall|k: int| 0 <= k < done@.len() implies same_progress(#[trigger] done@[k], unlocked_of(progress@)[k]) by {}
    }
    match first_image(done.as_slice(), web_front_url) {
        Some(u) => {
            e = e.thumbnail(u);
        },
        None => {},
    }
    let mut h1 = owned("Debloques (");
    push_u64(&mut h1, done.len() as u64);
    push_str(&mut h1, ")");
    e = e.field(h1, liste(done.as_slice(), "_Aucun pour l'instant._"), false);
    let ghost f1 = fields_view(e.fields@);
    if left.len() > 0 {
        let mut h2 = owned("A decrocher (");
        push_u64(&mut h2, left.len() as u64);
        push_str(&mut h2, ")");
        e = e.field(h2, liste(left.as_slice(), "—"), false);
    }
    assert(fields_view(e.fields@) =~= f1 + if remaining_of(progress@).len() > 0 {
        seq![("A decrocher ("@ + nat_text(remaining_of(progress@).len()) + ")"@,
              list_text(remaining_of(progress@), "—"@), false)]
    } else {
        Seq::empty()
    });
    e
}

} // verus!
