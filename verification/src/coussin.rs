//! Cushion duels and steals: the custom ids of their buttons, the replies,
//! and the decisions taken on each click.

use vstd::prelude::*;
use vstd::string::*;

use crate::api_client::{
    CoussinChallengeRequest, CoussinInventoryItem, CoussinProfileResponse, CoussinStealOutcome,
};
use crate::embeds::{
    build_coussin_insurance_embed, build_coussin_inventory_embed, build_coussin_profile_embed,
    build_coussin_purchase_embed, build_error_embed, fields_view, Embed,
};
use crate::event_bus::STEAL_RESOLVED;
use crate::json::{bool_field, i64_field, json_document, json_get, parse_json, str_field, Json};
use crate::text::{
    int_text, nat_text, opt_string, owned, parse_u64, parse_u64_spec, push_i64, push_str, push_u64,
    all_digits, has_prefix, lemma_nat_text_digits, lemma_split_on_concat, lemma_split_on_first_piece,
    lemma_split_on_len, lemma_split_on_plain, same_text,
    split_char, split_on, views,
};

verus! {

/// Reply when a duel could not be settled.
pub const MSG_DUEL_RESOLVE_FAILED: &'static str = "Le duel n'a pas pu etre resolu.";
/// Reply when a challenge is no longer open.
pub const MSG_CHALLENGE_UNAVAILABLE: &'static str = "Ce defi n'est plus disponible.";

// ---------------------------------------------------------------------
// Buttons
// ---------------------------------------------------------------------

/// Action, duel, defender and attacker of a duel button
/// (`c:{action}:{combat}:{defender}:{attacker}`): exactly five pieces
/// between `:`, the first `c`.
pub open spec fn challenge_button_spec(cid: Seq<char>) -> Option<(Seq<char>, Seq<char>, Seq<char>, Seq<char>)> {
    let p = split_on(cid, ':');
    if p.len() == 5 && p[0] == seq!['c'] {
        Some((p[1], p[2], p[3], p[4]))
    } else {
        None
    }
}

/// Reads the custom id of a duel button.
pub fn parse_coussin_challenge_button(custom_id: &str) -> (r: Option<(String, String, String, String)>)
    ensures
        r matches Some(t) ==> challenge_button_spec(custom_id@) == Some((t.0@, t.1@, t.2@, t.3@)),
        r is None ==> challenge_button_spec(custom_id@) is None,
{
    let parts = split_char(custom_id, ':');
    if parts.len() == 5 && same_text(parts[0].as_str(), "c") {
        proof {
            reveal_strlit("c");
            assert(views(parts@)[0] == parts@[0]@);
            assert("c"@ =~= seq!['c']);
        }
        let mut parts = parts;
        let d = parts.pop().unwrap();
        let c = parts.pop().unwrap();
        let b = parts.pop().unwrap();
        let a = parts.pop().unwrap();
        Some((a, b, c, d))
    } else {
        proof {
            reveal_strlit("c");
            assert("c"@ =~= seq!['c']);
            if parts@.len() == 5 {
                assert(views(parts@)[0] == parts@[0]@);
            }
        }
        None
    }
}

/// Steal attempt and victim of a defense button (`cs:d:{attempt}:{victim}`):
/// exactly four pieces, the first two `cs` and `d`.
pub open spec fn steal_button_spec(cid: Seq<char>) -> Option<(Seq<char>, Seq<char>)> {
    let p = split_on(cid, ':');
    if p.len() == 4 && p[0] == seq!['c', 's'] && p[1] == seq!['d'] {
        Some((p[2], p[3]))
    } else {
        None
    }
}

/// Reads the custom id of the defense button of a steal.
pub fn parse_coussin_steal_button(custom_id: &str) -> (r: Option<(String, String)>)
    ensures
        r matches Some(t) ==> steal_button_spec(custom_id@) == Some((t.0@, t.1@)),
        r is None ==> steal_button_spec(custom_id@) is None,
{
    let parts = split_char(custom_id, ':');
    proof {
        reveal_strlit("cs");
        reveal_strlit("d");
        assert("cs"@ =~= seq!['c', 's']);
        assert("d"@ =~= seq!['d']);
        if parts@.len() == 4 {
            assert(views(parts@)[0] == parts@[0]@);
            assert(views(parts@)[1] == parts@[1]@);
        }
    }
    if parts.len() == 4 && same_text(parts[0].as_str(), "cs") && same_text(parts[1].as_str(), "d") {
        let mut parts = parts;
        let victim = parts.pop().unwrap();
        let attempt = parts.pop().unwrap();
        Some((attempt, victim))
    } else {
        None
    }
}

/// Custom ids of the accept and refuse buttons of a duel.
pub fn challenge_button_ids(combat_id: &str, defender_id: u64, attacker_id: u64) -> (r: (String, String))
    ensures
        r.0@ == "c:a:"@ + combat_id@ + ":"@ + nat_text(defender_id as nat) + ":"@ + nat_text(attacker_id as nat),
        r.1@ == "c:r:"@ + combat_id@ + ":"@ + nat_text(defender_id as nat) + ":"@ + nat_text(attacker_id as nat),
{
    let mut a = owned("c:a:");
    push_str(&mut a, combat_id);
    push_str(&mut a, ":");
    push_u64(&mut a, defender_id);
    push_str(&mut a, ":");
    push_u64(&mut a, attacker_id);
    let mut r = owned("c:r:");
    push_str(&mut r, combat_id);
    push_str(&mut r, ":");
    push_u64(&mut r, defender_id);
    push_str(&mut r, ":");
    push_u64(&mut r, attacker_id);
    (a, r)
}

/// Custom id of the defense button of a steal.
pub fn steal_button_id(attempt_id: &str, target_id: u64) -> (r: String)
    ensures
        r@ == "cs:d:"@ + attempt_id@ + ":"@ + nat_text(target_id as nat),
{
    let mut s = owned("cs:d:");
    push_str(&mut s, attempt_id);
    push_str(&mut s, ":");
    push_u64(&mut s, target_id);
    s
}

/// The piece holds no `:`.
pub open spec fn no_colon(s: Seq<char>) -> bool {
    forall|i: int| 0 <= i < s.len() ==> s[i] != ':'
}

proof fn lemma_number_no_colon(n: nat)
    ensures
        no_colon(nat_text(n)),
{
    lemma_nat_text_digits(n);
    assert forall|i: int| 0 <= i < nat_text(n).len() implies nat_text(n)[i] != ':' by {
        assert(all_digits(nat_text(n)));
    }
}

proof fn lemma_split_pieces(pieces: Seq<Seq<char>>)
    requires
        pieces.len() >= 1,
        forall|k: int| 0 <= k < pieces.len() ==> no_colon(#[trigger] pieces[k]),
    ensures
        split_on(joined_by_colon(pieces), ':') == pieces,
    decreases pieces.len(),
{
    let first = pieces[0];
    assert(no_colon(first));
    lemma_split_on_plain(first, ':');
    if pieces.len() > 1 {
        let rest = pieces.drop_first();
        assert forall|k: int| 0 <= k < rest.len() implies no_colon(#[trigger] rest[k]) by {
            assert(rest[k] == pieces[k + 1]);
        }
        lemma_split_pieces(rest);
        lemma_split_on_concat(first, joined_by_colon(rest), ':');
        assert(seq![first] + rest =~= pieces);
    } else {
        assert(seq![first] =~= pieces);
    }
}

/// Pieces joined by `:`, the first one leading.
pub open spec fn joined_by_colon(pieces: Seq<Seq<char>>) -> Seq<char>
    decreases pieces.len(),
{
    if pieces.len() <= 1 {
        if pieces.len() == 1 { pieces[0] } else { Seq::empty() }
    } else {
        pieces[0] + seq![':'] + joined_by_colon(pieces.drop_first())
    }
}

/// The buttons of a duel read back as they were written: the action, the
/// duel, the defender and the attacker, for any duel id without `:`.
pub proof fn duel_buttons_read_back(combat_id: Seq<char>, defender_id: u64, attacker_id: u64)
    requires
        no_colon(combat_id),
    ensures
        challenge_button_spec("c:a:"@ + combat_id + ":"@ + nat_text(defender_id as nat) + ":"@ + nat_text(attacker_id as nat))
            == Some(("a"@, combat_id, nat_text(defender_id as nat), nat_text(attacker_id as nat))),
        challenge_button_spec("c:r:"@ + combat_id + ":"@ + nat_text(defender_id as nat) + ":"@ + nat_text(attacker_id as nat))
            == Some(("r"@, combat_id, nat_text(defender_id as nat), nat_text(attacker_id as nat))),
{
    reveal_strlit("c:a:");
    reveal_strlit("c:r:");
    reveal_strlit(":");
    reveal_strlit("a");
    reveal_strlit("r");
    let d = nat_text(defender_id as nat);
    let t = nat_text(attacker_id as nat);
    lemma_number_no_colon(defender_id as nat);
    lemma_number_no_colon(attacker_id as nat);
    assert(":"@ =~= seq![':']);
    assert("a"@ =~= seq!['a']);
    assert("r"@ =~= seq!['r']);
    let pa = seq![seq!['c'], seq!['a'], combat_id, d, t];
    let pr = seq![seq!['c'], seq!['r'], combat_id, d, t];
    assert forall|k: int| 0 <= k < pa.len() implies no_colon(#[trigger] pa[k]) by {}
    assert forall|k: int| 0 <= k < pr.len() implies no_colon(#[trigger] pr[k]) by {}
    lemma_split_pieces(pa);
    lemma_split_pieces(pr);
    reveal_with_fuel(joined_by_colon, 5);
    assert("c:a:"@ + combat_id + ":"@ + d + ":"@ + t =~= joined_by_colon(pa));
    assert("c:r:"@ + combat_id + ":"@ + d + ":"@ + t =~= joined_by_colon(pr));
}

/// The defense button of a steal reads back as it was written: the attempt
/// and the victim, for any attempt id without `:`.
pub proof fn steal_button_reads_back(attempt_id: Seq<char>, target_id: u64)
    requires
        no_colon(attempt_id),
    ensures
        steal_button_spec("cs:d:"@ + attempt_id + ":"@ + nat_text(target_id as nat))
            == Some((attempt_id, nat_text(target_id as nat))),
{
    reveal_strlit("cs:d:");
    reveal_strlit(":");
    let v = nat_text(target_id as nat);
    lemma_number_no_colon(target_id as nat);
    assert(":"@ =~= seq![':']);
    let p = seq![seq!['c', 's'], seq!['d'], attempt_id, v];
    assert forall|k: int| 0 <= k < p.len() implies no_colon(#[trigger] p[k]) by {}
    lemma_split_pieces(p);
    reveal_with_fuel(joined_by_colon, 4);
    assert("cs:d:"@ + attempt_id + ":"@ + v =~= joined_by_colon(p));
}

/// Any custom id reads as a duel button exactly when it has five pieces
/// between its `:` and starts with `c:`.
pub proof fn duel_button_ids_are_recognized(cid: Seq<char>)
    ensures
        challenge_button_spec(cid) is Some <==> (split_on(cid, ':').len() == 5 && has_prefix(cid, "c:"@)),
{
    reveal_strlit("c:");
    let k = "c:"@;
    assert(k =~= seq!['c', ':']);
    let p = split_on(cid, ':');
    if has_prefix(cid, k) {
        let rest = cid.skip(2);
        assert(cid =~= seq!['c'] + seq![':'] + rest);
        lemma_split_on_concat(seq!['c'], rest, ':');
        lemma_split_on_plain(seq!['c'], ':');
        lemma_split_on_len(rest, ':');
        assert(p[0] == seq!['c']);
    }
    if p.len() == 5 && p[0] == seq!['c'] {
        lemma_split_on_first_piece(cid, ':');
        assert(cid.take(1)[0] == cid[0]);
        assert(cid.subrange(0, 2) =~= k);
    }
}

/// Any custom id reads as the defense button of a steal exactly when it has
/// four pieces between its `:` and starts with `cs:d:`.
pub proof fn steal_button_ids_are_recognized(cid: Seq<char>)
    ensures
        steal_button_spec(cid) is Some <==> (split_on(cid, ':').len() == 4 && has_prefix(cid, "cs:d:"@)),
{
    reveal_strlit("cs:d:");
    let k = "cs:d:"@;
    assert(k =~= seq!['c', 's', ':', 'd', ':']);
    let p = split_on(cid, ':');
    if has_prefix(cid, k) {
        let rest = cid.skip(5);
        let tail = seq!['d'] + seq![':'] + rest;
        assert(cid =~= seq!['c', 's'] + seq![':'] + tail);
        lemma_split_on_concat(seq!['c', 's'], tail, ':');
        lemma_split_on_concat(seq!['d'], rest, ':');
        lemma_split_on_plain(seq!['c', 's'], ':');
        lemma_split_on_plain(seq!['d'], ':');
        lemma_split_on_len(rest, ':');
        assert(p[0] == seq!['c', 's']);
        assert(p[1] == seq!['d']);
    }
    if p.len() == 4 && p[0] == seq!['c', 's'] && p[1] == seq!['d'] {
        lemma_split_on_first_piece(cid, ':');
        let head = cid.take(2);
        let rest = cid.skip(3);
        assert(head =~= seq!['c', 's']);
        assert(cid =~= head + seq![':'] + rest);
        lemma_split_on_concat(head, rest, ':');
        lemma_split_on_plain(head, ':');
        let q = split_on(rest, ':');
        assert(p =~= seq![head] + q);
        assert(q.len() == 3);
        assert(q[0] == p[1]);
        lemma_split_on_first_piece(rest, ':');
        assert(rest.take(1)[0] == rest[0]);
        assert(cid.subrange(0, 5) =~= k);
    }
}

// ---------------------------------------------------------------------
// Challenges
// ---------------------------------------------------------------------

/// Refusal of a challenge against oneself or against a bot.
pub fn validate_coussin_challenge(attacker_id: u64, defender_id: u64, is_defender_bot: bool) -> (r: Result<(), &'static str>)
    ensures
        defender_id == attacker_id ==> (r matches Err(m) && m@ == "Te piéger toi-même, c'est juste t'asseoir."@),
        defender_id != attacker_id && is_defender_bot ==> (r matches Err(m) && m@ == "Un bot ne s'assoit jamais."@),
        defender_id != attacker_id && !is_defender_bot ==> r is Ok,
{
    if defender_id == attacker_id {
        return Err("Te piéger toi-même, c'est juste t'asseoir.");
    }
    if is_defender_bot {
        return Err("Un bot ne s'assoit jamais.");
    }
    Ok(())
}

/// Body of a challenge for the API.
pub fn build_challenge_request_payload(
    channel_id: u64,
    attacker_id: u64,
    attacker_name: &str,
    defender_id: u64,
    defender_name: &str,
    mise: i64,
) -> (r: CoussinChallengeRequest)
    ensures
        r.channel_id@ == nat_text(channel_id as nat),
        r.attacker_id@ == nat_text(attacker_id as nat),
        r.attacker_name@ == attacker_name@,
        r.defender_id@ == nat_text(defender_id as nat),
        r.defender_name@ == defender_name@,
        r.mise == mise,
{
    CoussinChallengeRequest {
        channel_id: crate::text::u64_text(channel_id),
        attacker_id: crate::text::u64_text(attacker_id),
        attacker_name: owned(attacker_name),
        defender_id: crate::text::u64_text(defender_id),
        defender_name: owned(defender_name),
        mise,
    }
}

/// Name of the defender in a challenge: the display name Discord resolved,
/// else a mention.
pub fn defender_name(resolved: Option<&str>, defender_id: u64) -> (r: String)
    ensures
        r@ == match resolved {
            Some(n) => n@,
            None => "<@"@ + nat_text(defender_id as nat) + ">"@,
        },
{
    match resolved {
        Some(n) => owned(n),
        None => {
            let mut s = owned("<@");
            push_u64(&mut s, defender_id);
            push_str(&mut s, ">");
            s
        },
    }
}

/// What a click on a duel button asks for.
#[derive(Debug, PartialEq, Eq, Structural, Clone, Copy)]
pub enum DuelClick {
    /// The click is not from the defender.
    NotTheDefender,
    Refuse,
    Accept,
    /// Any other action: nothing is done.
    Ignore,
}

/// What a click on a duel button asks for.
pub open spec fn duel_click_spec(action: Seq<char>, clicker: Seq<char>, defender: Seq<char>) -> DuelClick {
    if clicker != defender {
        DuelClick::NotTheDefender
    } else if action == "r"@ {
        DuelClick::Refuse
    } else if action == "a"@ {
        DuelClick::Accept
    } else {
        DuelClick::Ignore
    }
}

/// What a click on a duel button asks for, from its action and who clicked.
pub fn duel_click(action: &str, clicker: &str, defender: &str) -> (r: DuelClick)
    ensures
        r == duel_click_spec(action@, clicker@, defender@),
{
    if !same_text(clicker, defender) {
        DuelClick::NotTheDefender
    } else if same_text(action, "r") {
        DuelClick::Refuse
    } else if same_text(action, "a") {
        DuelClick::Accept
    } else {
        DuelClick::Ignore
    }
}

/// Reply after a click: the message edited (its buttons removed), or a
/// private error.
pub enum ComponentReply {
    Edit(String),
    Error(String),
}

/// A reply as plain values: `true` for an edit.
pub open spec fn reply_view(r: ComponentReply) -> (bool, Seq<char>) {
    match r {
        ComponentReply::Edit(s) => (true, s@),
        ComponentReply::Error(s) => (false, s@),
    }
}

/// Reply to a refusal, from the API's answer.
pub fn refuse_reply(res: Result<bool, String>) -> (r: ComponentReply)
    ensures
        reply_view(r) == match res {
            Ok(true) => (true, "👊 Duel refuse."@),
            Ok(false) => (false, "Ce defi n'est plus disponible."@),
            Err(e) => (false, e@),
        },
{
    match res {
        Ok(true) => ComponentReply::Edit(owned("👊 Duel refuse.")),
        Ok(false) => ComponentReply::Error(owned("Ce defi n'est plus disponible.")),
        Err(e) => ComponentReply::Error(e),
    }
}

/// After an acceptance: the attacker to settle the duel with, or the error
/// to reply.
pub fn accept_next(res: Result<bool, String>, attacker_id: &str) -> (r: Result<u64, String>)
    ensures
        match res {
            Ok(true) => match parse_u64_spec(attacker_id@) {
                Some(a) => r == Ok::<u64, String>(a),
                None => r matches Err(m) && m@ == "Defi invalide."@,
            },
            Ok(false) => r matches Err(m) && m@ == MSG_CHALLENGE_UNAVAILABLE@,
            Err(e) => r matches Err(m) && m@ == e@,
        },
{
    match res {
        Ok(true) => match parse_u64(attacker_id) {
            Some(a) => Ok(a),
            None => Err(owned("Defi invalide.")),
        },
        Ok(false) => Err(owned(MSG_CHALLENGE_UNAVAILABLE)),
        Err(e) => Err(e),
    }
}

/// Announcement of a settled duel.
pub fn format_coussin_resolve_result(attacker_id: u64, defender_id: u64) -> (r: String)
    ensures
        r@ == "👊 Duel resolu entre <@"@ + nat_text(attacker_id as nat) + "> et <@"@ + nat_text(
            defender_id as nat,
        ) + ">. Consultez /profil pour voir les consequences."@,
{
    let mut s = owned("👊 Duel resolu entre <@");
    push_u64(&mut s, attacker_id);
    push_str(&mut s, "> et <@");
    push_u64(&mut s, defender_id);
    push_str(&mut s, ">. Consultez /profil pour voir les consequences.");
    s
}

/// Reply once the API settled (or not) an accepted duel.
pub fn resolve_reply(res: Result<bool, String>, attacker_id: u64, defender_id: u64) -> (r: ComponentReply)
    ensures
        reply_view(r) == match res {
            Ok(true) => (true, "👊 Duel resolu entre <@"@ + nat_text(attacker_id as nat) + "> et <@"@
                + nat_text(defender_id as nat) + ">. Consultez /profil pour voir les consequences."@),
            Ok(false) => (false, MSG_DUEL_RESOLVE_FAILED@),
            Err(e) => (false, e@),
        },
{
    match res {
        Ok(true) => ComponentReply::Edit(format_coussin_resolve_result(attacker_id, defender_id)),
        Ok(false) => ComponentReply::Error(owned(MSG_DUEL_RESOLVE_FAILED)),
        Err(e) => ComponentReply::Error(e),
    }
}

// ---------------------------------------------------------------------
// Steals
// ---------------------------------------------------------------------

/// Prompt of a steal, with the victim's window to react.
pub fn format_steal_prompt(attacker_id: u64, target_id: u64, window_seconds: i64) -> (r: String)
    ensures
        r@ == "🛋️ <@"@ + nat_text(attacker_id as nat) + "> fouille les coussins de <@"@ + nat_text(
            target_id as nat,
        ) + "> !\n<@"@ + nat_text(target_id as nat) + ">, tu as **"@ + int_text(window_seconds as int)
            + " secondes** pour réagir — sans quoi tu te feras chiper bien plus facilement."@,
{
    let mut s = owned("🛋️ <@");
    push_u64(&mut s, attacker_id);
    push_str(&mut s, "> fouille les coussins de <@");
    push_u64(&mut s, target_id);
    push_str(&mut s, "> !\n<@");
    push_u64(&mut s, target_id);
    push_str(&mut s, ">, tu as **");
    push_i64(&mut s, window_seconds);
    push_str(&mut s, " secondes** pour réagir — sans quoi tu te feras chiper bien plus facilement.");
    s
}

/// Outcome of a steal settled by the victim's click.
pub open spec fn defense_text(o: CoussinStealOutcome) -> Seq<char> {
    (if o.success {
        "🪙 Trop tard : <@"@ + o.thief_id@ + "> repart avec **"@ + int_text(o.amount as int) + "** coins."@
    } else {
        "🛡️ Coussins bien serrés ! <@"@ + o.thief_id@ + "> repart bredouille et perd **"@ + int_text(
            o.amount as int,
        ) + "** coins."@
    }) + "\n🎲 Voleur : **"@ + int_text(o.thief_total as int) + "** — Défense : **"@ + int_text(
        o.victim_total as int,
    ) + "**"@
}

/// Outcome of a steal settled by the victim's click.
pub fn format_steal_defense_result(outcome: &CoussinStealOutcome) -> (r: String)
    ensures
        r@ == defense_text(*outcome),
{
    let mut s;
    if outcome.success {
        s = owned("🪙 Trop tard : <@");
        push_str(&mut s, outcome.thief_id.as_str());
        push_str(&mut s, "> repart avec **");
        push_i64(&mut s, outcome.amount);
        push_str(&mut s, "** coins.");
    } else {
        s = owned("🛡️ Coussins bien serrés ! <@");
        push_str(&mut s, outcome.thief_id.as_str());
        push_str(&mut s, "> repart bredouille et perd **");
        push_i64(&mut s, outcome.amount);
        push_str(&mut s, "** coins.");
    }
    push_str(&mut s, "\n🎲 Voleur : **");
    push_i64(&mut s, outcome.thief_total as i64);
    push_str(&mut s, "** — Défense : **");
    push_i64(&mut s, outcome.victim_total as i64);
    push_str(&mut s, "**");
    s
}

/// A click on the defense button is from the victim; otherwise the private
/// error to reply.
pub fn steal_click_error(clicker: &str, victim_id: &str) -> (r: Option<&'static str>)
    ensures
        clicker@ == victim_id@ ==> r is None,
        clicker@ != victim_id@ ==> (r matches Some(m) && m@ == "Ce sont les coussins de quelqu'un d'autre."@),
{
    if same_text(clicker, victim_id) {
        None
    } else {
        Some("Ce sont les coussins de quelqu'un d'autre.")
    }
}

/// Reply once the victim's defense was settled by the API.
pub fn defense_reply(res: Result<CoussinStealOutcome, String>) -> (r: ComponentReply)
    ensures
        reply_view(r) == match res {
            Ok(o) => (true, defense_text(o)),
            Err(e) => (false, e@),
        },
{
    match res {
        Ok(o) => ComponentReply::Edit(format_steal_defense_result(&o)),
        Err(e) => ComponentReply::Error(e),
    }
}

/// Announcement of a bounty.
pub fn format_prime_announcement(target_id: u64, amount: i64) -> (r: String)
    ensures
        r@ == "📜 Contrat de "@ + int_text(amount as int) + " coins sur <@"@ + nat_text(target_id as nat)
            + "> : fais-le lever."@,
{
    let mut s = owned("📜 Contrat de ");
    push_i64(&mut s, amount);
    push_str(&mut s, " coins sur <@");
    push_u64(&mut s, target_id);
    push_str(&mut s, "> : fais-le lever.");
    s
}

/// Announcement of a bet.
pub fn format_bet_announcement(target_id: u64, amount: i64) -> (r: String)
    ensures
        r@ == "🍿 "@ + int_text(amount as int) + " coins sur <@"@ + nat_text(target_id as nat)
            + ">. Popcorn servi."@,
{
    let mut s = owned("🍿 ");
    push_i64(&mut s, amount);
    push_str(&mut s, " coins sur <@");
    push_u64(&mut s, target_id);
    push_str(&mut s, ">. Popcorn servi.");
    s
}

/// Reply to a bounty: its announcement, or the API's error.
pub fn build_coussin_prime_response(target_id: u64, amount: i64, res: &Result<(), String>) -> (r: String)
    ensures
        r@ == match res {
            Ok(_) => "📜 Contrat de "@ + int_text(amount as int) + " coins sur <@"@ + nat_text(target_id as nat)
                + "> : fais-le lever."@,
            Err(e) => e@,
        },
{
    match res {
        Ok(()) => format_prime_announcement(target_id, amount),
        Err(e) => owned(e.as_str()),
    }
}

/// Reply to a bet: its announcement, or the API's error.
pub fn build_coussin_bet_response(target_id: u64, amount: i64, res: &Result<(), String>) -> (r: String)
    ensures
        r@ == match res {
            Ok(_) => "🍿 "@ + int_text(amount as int) + " coins sur <@"@ + nat_text(target_id as nat)
                + ">. Popcorn servi."@,
            Err(e) => e@,
        },
{
    match res {
        Ok(()) => format_bet_announcement(target_id, amount),
        Err(e) => owned(e.as_str()),
    }
}

/// The embed of an error of the API, or what `ok` builds.
pub open spec fn error_embed_of(r: Embed, message: Seq<char>) -> bool {
    &&& opt_string(r.description) == Some(message)
    &&& opt_string(r.title) == Some("\u{1f300} Roue du Destin"@)
    &&& r.color == Some(0xed4245u32)
    &&& r.fields@.len() == 0
    &&& r.footer is None && r.image is None && r.thumbnail is None && !r.timestamp
}

/// Reply to `/profil`: the profile (with the label of its class), or the
/// API's error.
pub fn build_coussin_profile_response(res: &Result<CoussinProfileResponse, String>, classe: &str) -> (r: Embed)
    ensures
        res matches Err(e) ==> error_embed_of(r, e@),
        res matches Ok(p) ==> {
            &&& opt_string(r.title) == Some("🛋️ Place de "@ + p.username@ + " sur le canape"@)
            &&& r.color == Some(0x5865F2u32)
            &&& opt_string(r.description) == Some(crate::embeds::profile_text(*p))
            &&& fields_view(r.fields@) == crate::embeds::profile_fields(*p, classe@)
            &&& r.footer is None && r.image is None && r.thumbnail is None && !r.timestamp
        },
{
    match res {
        Ok(p) => build_coussin_profile_embed(p, classe),
        Err(e) => build_error_embed(e.as_str()),
    }
}

/// Reply to `/shop`: the purchase (with the item's name), or the API's
/// error.
pub fn build_coussin_shop_response(nom_objet: &str, res: &Result<i64, String>) -> (r: Embed)
    ensures
        res matches Err(e) ==> error_embed_of(r, e@),
        res matches Ok(b) ==> {
            &&& opt_string(r.title) == Some("🛋️ Planque effectuee"@)
            &&& opt_string(r.description) == Some("**"@ + nom_objet@ + "** est maintenant sous ton coussin."@)
            &&& fields_view(r.fields@) == seq![("Solde"@, int_text(b as int) + " coins"@, true)]
            &&& r.color == Some(0xF39C12u32)
            &&& r.footer is None && r.image is None && r.thumbnail is None && !r.timestamp
        },
{
    match res {
        Ok(balance) => build_coussin_purchase_embed(nom_objet, *balance),
        Err(e) => build_error_embed(e.as_str()),
    }
}

/// Reply to `/garantie`: the guarantee, or the API's error.
pub fn build_coussin_insurance_response(res: &Result<(bool, String), String>) -> (r: Embed)
    ensures
        res matches Err(e) ==> error_embed_of(r, e@),
        res matches Ok(t) ==> {
            &&& opt_string(r.title) == Some(if t.0 { "⚠️ Garantie signee"@ } else { "🧼 Garantie anti-tache active"@ })
            &&& opt_string(r.description) == Some(
                if t.0 {
                    "Le vendeur a souri un peu trop vite et les petites lignes sont illisibles.\nCouverture annoncee jusqu'a **"@
                        + t.1@ + "**."@
                } else {
                    "Tes pertes sont couvertes jusqu'a **"@ + t.1@ + "**."@
                },
            )
            &&& r.color == Some(if t.0 { 0xE67E22u32 } else { 0x2ECC71u32 })
            &&& r.fields@.len() == 0
            &&& r.footer is None && r.image is None && r.thumbnail is None && !r.timestamp
        },
{
    match res {
        Ok((scam, expires)) => build_coussin_insurance_embed(*scam, expires.as_str()),
        Err(e) => build_error_embed(e.as_str()),
    }
}

/// Reply to `/inventaire`: what is under the cushion (each item named by
/// `noms`), or the API's error.
pub fn build_coussin_inventory_response(res: &Result<Vec<CoussinInventoryItem>, String>, noms: &[String]) -> (r: Embed)
    requires
        res matches Ok(items) ==> noms@.len() == items@.len(),
    ensures
        res matches Err(e) ==> error_embed_of(r, e@),
        res matches Ok(items) ==> {
            &&& opt_string(r.title) == Some("🛋️ Sous ton coussin"@)
            &&& opt_string(r.description) == Some(crate::embeds::inventory_body(items@, views(noms@)))
            &&& r.color == Some(0x5865F2u32)
            &&& r.fields@.len() == 0
            &&& r.footer is None && r.image is None && r.thumbnail is None && !r.timestamp
        },
{
    match res {
        Ok(items) => build_coussin_inventory_embed(items.as_slice(), noms),
        Err(e) => build_error_embed(e.as_str()),
    }
}

// ---------------------------------------------------------------------
// Steals settled without the victim
// ---------------------------------------------------------------------

/// Story of a steal that the API settled because the victim did not react.
pub open spec fn recit_text(success: bool, victim_id: Seq<char>, thief_id: Seq<char>, amount: i64, thief_total: i64, victim_total: i64, malus: i64) -> Seq<char> {
    (if success {
        "😴 <@"@ + victim_id + "> n'a pas bougé… <@"@ + thief_id + "> repart avec **"@ + int_text(amount as int)
            + "** coins.\n"@
    } else {
        "🍀 <@"@ + victim_id + "> n'a pas réagi, mais <@"@ + thief_id + "> est reparti bredouille : **"@
            + int_text(amount as int) + "** coins perdus.\n"@
    }) + "🎲 Voleur : **"@ + int_text(thief_total as int) + "** — Défense : **"@ + int_text(
        victim_total as int,
    ) + "** (vigilance −"@ + int_text(malus as int) + ")"@
}

/// Story of a steal that the API settled because the victim did not react.
pub fn format_recit(
    success: bool,
    victim_id: &str,
    thief_id: &str,
    amount: i64,
    thief_total: i64,
    victim_total: i64,
    malus: i64,
) -> (r: String)
    ensures
        r@ == recit_text(success, victim_id@, thief_id@, amount, thief_total, victim_total, malus),
{
    let mut s;
    if success {
        s = owned("😴 <@");
        push_str(&mut s, victim_id);
        push_str(&mut s, "> n'a pas bougé… <@");
        push_str(&mut s, thief_id);
        push_str(&mut s, "> repart avec **");
        push_i64(&mut s, amount);
        push_str(&mut s, "** coins.\n");
    } else {
        s = owned("🍀 <@");
        push_str(&mut s, victim_id);
        push_str(&mut s, "> n'a pas réagi, mais <@");
        push_str(&mut s, thief_id);
        push_str(&mut s, "> est reparti bredouille : **");
        push_i64(&mut s, amount);
        push_str(&mut s, "** coins perdus.\n");
    }
    push_str(&mut s, "🎲 Voleur : **");
    push_i64(&mut s, thief_total);
    push_str(&mut s, "** — Défense : **");
    push_i64(&mut s, victim_total);
    push_str(&mut s, "** (vigilance −");
    push_i64(&mut s, malus);
    push_str(&mut s, ")");
    s
}

/// What a settled steal event carries.
#[derive(Debug)]
pub struct ParsedStealEvent {
    pub channel_id: u64,
    pub thief_id: String,
    pub victim_id: String,
    pub message_id: Option<u64>,
    pub success: bool,
    pub amount: i64,
    pub thief_total: i64,
    pub victim_total: i64,
    pub malus: i64,
}

/// An event as plain values.
pub open spec fn steal_view(e: ParsedStealEvent) -> (u64, Seq<char>, Seq<char>, Option<u64>, bool, i64, i64, i64, i64) {
    (e.channel_id, e.thief_id@, e.victim_id@, e.message_id, e.success, e.amount, e.thief_total, e.victim_total, e.malus)
}

/// A number read from an optional text.
pub open spec fn opt_u64(t: Option<Seq<char>>) -> Option<u64> {
    match t {
        Some(s) => parse_u64_spec(s),
        None => None,
    }
}

/// A settled steal: the envelope is of that kind, and names the channel (a
/// decimal number), the thief and the victim; the message, the success and
/// the numbers are optional (absent, the numbers are zero).
pub open spec fn steal_event_spec(env: Json) -> Option<(u64, Seq<char>, Seq<char>, Option<u64>, bool, i64, i64, i64, i64)> {
    if str_field(env, "event"@) != Some(STEAL_RESOLVED@) {
        None
    } else {
        match json_get(env, "data"@) {
            None => None,
            Some(data) => match (opt_u64(str_field(data, "channel_id"@)), str_field(data, "thief_id"@), str_field(data, "victim_id"@)) {
                (Some(channel), Some(thief), Some(victim)) => Some((
                    channel,
                    thief,
                    victim,
                    opt_u64(str_field(data, "message_id"@)),
                    match bool_field(data, "success"@) { Some(b) => b, None => false },
                    match i64_field(data, "amount"@) { Some(n) => n, None => 0 },
                    match i64_field(data, "thief_total"@) { Some(n) => n, None => 0 },
                    match i64_field(data, "victim_total"@) { Some(n) => n, None => 0 },
                    match i64_field(data, "absence_malus"@) { Some(n) => n, None => 0 },
                )),
                _ => None,
            },
        }
    }
}

fn i64_or_zero(j: &Json, key: &str) -> (r: i64)
    ensures
        r == match i64_field(*j, key@) { Some(n) => n, None => 0 },
{
    match j.i64_field(key) {
        Some(n) => n,
        None => 0,
    }
}

/// Reads a settled steal event.
pub fn parse_steal_event(envelope: &Json) -> (r: Option<ParsedStealEvent>)
    ensures
        r matches Some(e) ==> steal_event_spec(*envelope) == Some(steal_view(e)),
        r is None ==> steal_event_spec(*envelope) is None,
{
    let kind_ok = match envelope.str_field("event") {
        Some(e) => same_text(e.as_str(), STEAL_RESOLVED),
        None => false,
    };
    if !kind_ok {
        return None;
    }
    let data = match envelope.get("data") {
        Some(d) => d,
        None => return None,
    };
    let channel_id = match data.str_field("channel_id") {
        Some(c) => match parse_u64(c.as_str()) {
            Some(n) => n,
            None => return None,
        },
        None => return None,
    };
    let thief_id = match data.str_field("thief_id") {
        Some(t) => owned(t.as_str()),
        None => return None,
    };
    let victim_id = match data.str_field("victim_id") {
        Some(v) => owned(v.as_str()),
        None => return None,
    };
    let message_id = match data.str_field("message_id") {
        Some(m) => parse_u64(m.as_str()),
        None => None,
    };
    let success = match data.bool_field("success") {
        Some(b) => b,
        None => false,
    };
    Some(ParsedStealEvent {
        channel_id,
        thief_id,
        victim_id,
        message_id,
        success,
        amount: i64_or_zero(data, "amount"),
        thief_total: i64_or_zero(data, "thief_total"),
        victim_total: i64_or_zero(data, "victim_total"),
        malus: i64_or_zero(data, "absence_malus"),
    })
}

/// Channel, message and story of the steal that a payload carries.
pub open spec fn steal_payload_spec(payload: Seq<char>) -> Option<(u64, Option<u64>, Seq<char>)> {
    match json_document(payload) {
        Some(env) => match steal_event_spec(env) {
            Some(e) => Some((e.0, e.3, recit_text(e.4, e.2, e.1, e.5, e.6, e.7, e.8))),
            None => None,
        },
        None => None,
    }
}

/// Channel, message and story of the steal that a payload carries.
pub fn process_steal_event_payload(payload: &str) -> (r: Option<(u64, Option<u64>, String)>)
    ensures
        r matches Some(t) ==> steal_payload_spec(payload@) == Some((t.0, t.1, t.2@)),
        r is None ==> steal_payload_spec(payload@) is None,
{
    let envelope = match parse_json(payload) {
        Some(e) => e,
        None => return None,
    };
    let parsed = match parse_steal_event(&envelope) {
        Some(p) => p,
        None => return None,
    };
    let recit = format_recit(
        parsed.success,
        parsed.victim_id.as_str(),
        parsed.thief_id.as_str(),
        parsed.amount,
        parsed.thief_total,
        parsed.victim_total,
        parsed.malus,
    );
    Some((parsed.channel_id, parsed.message_id, recit))
}

} // verus!
