//! Who may use the bot where: the guild it serves, and the cleaning of a
//! channel (`/purge`).

use vstd::prelude::*;
use vstd::string::*;

use crate::text::{
    is_digit, lemma_nat_text_digits, lemma_nat_text_injective, lemma_nat_text_nonempty, nat_text, opt_text,
    owned, push_str, push_u64, same_text, trim, trim_end, trim_start, trimmed,
};
use crate::wheel::{ADMINISTRATOR, MANAGE_GUILD, MANAGE_MESSAGES};

verus! {

/// The guild is the one this installation serves: the expected id is
/// `PUBLIC_GUILD_ID`, else `GUILD_ID`, trimmed; none set means no lock.
pub open spec fn guild_allowed(guild_id: u64, public_guild_id: Option<Seq<char>>, guild_id_env: Option<Seq<char>>) -> bool {
    let expected = match public_guild_id {
        Some(p) => trim(p),
        None => match guild_id_env {
            Some(g) => trim(g),
            None => Seq::empty(),
        },
    };
    expected.len() == 0 || expected == nat_text(guild_id as nat)
}

/// Is the guild the one this installation serves?
pub fn is_guild_allowed(guild_id: u64, public_guild_id: Option<&str>, guild_id_env: Option<&str>) -> (r: bool)
    ensures
        r == guild_allowed(guild_id, opt_text(public_guild_id), opt_text(guild_id_env)),
{
    let expected = match public_guild_id {
        Some(p) => trimmed(p),
        None => match guild_id_env {
            Some(g) => trimmed(g),
            None => String::new(),
        },
    };
    if expected.as_str().unicode_len() == 0 {
        return true;
    }
    let id = crate::text::u64_text(guild_id);
    same_text(expected.as_str(), id.as_str())
}

/// One guild only: with no guild set (or a blank one) every guild is
/// served; with a guild's id set, in `PUBLIC_GUILD_ID` or else in
/// `GUILD_ID`, that guild is served and no other.
pub proof fn one_guild_is_served(guild_id: u64, configured: u64, guild_id_env: Option<Seq<char>>)
    ensures
        guild_allowed(guild_id, None, None),
        guild_allowed(guild_id, Some(nat_text(configured as nat)), guild_id_env) <==> guild_id == configured,
        guild_allowed(guild_id, None, Some(nat_text(configured as nat))) <==> guild_id == configured,
{
    let c = nat_text(configured as nat);
    lemma_nat_text_nonempty(configured as nat);
    lemma_nat_text_digits(configured as nat);
    assert(is_digit(c[0]));
    assert(is_digit(c.last()));
    assert(trim_start(c) == c);
    assert(trim_end(c) == c);
    assert(trim(c) == c);
    assert(trim(Seq::<char>::empty()) == Seq::<char>::empty());
    if c == nat_text(guild_id as nat) {
        lemma_nat_text_injective(configured as nat, guild_id as nat);
    }
}

/// The member's permissions (when readable) allow `/purge`: managing
/// messages, managing the guild, or administrator.
pub open spec fn purge_admin(permissions: Option<u64>) -> bool {
    match permissions {
        Some(p) => (p & MANAGE_MESSAGES) == MANAGE_MESSAGES || (p & MANAGE_GUILD) == MANAGE_GUILD || (p
            & ADMINISTRATOR) == ADMINISTRATOR,
        None => false,
    }
}

/// May this member use `/purge`?
pub fn is_purge_admin(permissions: Option<u64>) -> (r: bool)
    ensures
        r == purge_admin(permissions),
{
    match permissions {
        Some(p) => (p & MANAGE_MESSAGES) == MANAGE_MESSAGES || (p & MANAGE_GUILD) == MANAGE_GUILD || (p
            & ADMINISTRATOR) == ADMINISTRATOR,
        None => false,
    }
}

/// Messages to scan: the number asked for (50 by default) kept between 1
/// and 100.
pub open spec fn purge_count_spec(asked: Option<i64>) -> u8 {
    match asked {
        Some(n) => if n < 1 { 1 } else if n > 100 { 100 } else { n as u8 },
        None => 50,
    }
}

/// Messages to scan.
pub fn purge_count(asked: Option<i64>) -> (r: u8)
    ensures
        r == purge_count_spec(asked),
        asked matches Some(n) ==> (1 <= n <= 100 ==> r as int == n as int),
        1 <= r <= 100,
{
    match asked {
        Some(n) => if n < 1 { 1 } else if n > 100 { 100 } else { n as u8 },
        None => 50,
    }
}

/// `/purge` scans exactly the number of messages asked for when it lies
/// between 1 and 100; 50 when none is asked; a smaller number scans one
/// message and a larger one a hundred.
pub proof fn purge_scans_what_was_asked(n: i64)
    ensures
        1 <= n <= 100 ==> purge_count_spec(Some(n)) as int == n as int,
        n < 1 ==> purge_count_spec(Some(n)) == 1,
        n > 100 ==> purge_count_spec(Some(n)) == 100,
        purge_count_spec(None) == 50,
{
}

/// What `/purge` knows of a message of the channel.
#[derive(Debug, Clone, Copy, PartialEq, Eq, Structural)]
pub struct PurgeMessage {
    pub id: u64,
    /// Pinned in the channel.
    pub pinned: bool,
    /// A notice that a message was pinned.
    pub pin_notice: bool,
    /// Written by this bot or another bot.
    pub from_bot: bool,
    /// Unix seconds of the message.
    pub timestamp: i64,
}

/// Which messages the filter takes: `pins` the pin notices, `bot` the bots'
/// messages and the pin notices, anything else all of them.
pub open spec fn filter_takes(filtre: Seq<char>, m: PurgeMessage) -> bool {
    if filtre == "pins"@ {
        m.pin_notice
    } else if filtre == "bot"@ {
        m.from_bot || m.pin_notice
    } else {
        true
    }
}

/// The message goes: not the reply being written, not a pinned message
/// kept, and taken by the filter.
pub open spec fn purged(m: PurgeMessage, reply_id: u64, filtre: Seq<char>, keep_pins: bool) -> bool {
    m.id != reply_id && !(keep_pins && m.pinned) && filter_takes(filtre, m)
}

/// The messages that go, in order.
pub open spec fn purge_selection_spec(v: Seq<PurgeMessage>, reply_id: u64, filtre: Seq<char>, keep_pins: bool) -> Seq<PurgeMessage>
    decreases v.len(),
{
    if v.len() == 0 {
        Seq::empty()
    } else if purged(v.last(), reply_id, filtre, keep_pins) {
        purge_selection_spec(v.drop_last(), reply_id, filtre, keep_pins).push(v.last())
    } else {
        purge_selection_spec(v.drop_last(), reply_id, filtre, keep_pins)
    }
}

/// `/purge` never deletes its own reply, nor a pinned message when pins are
/// kept, nor anything that was not among the channel's messages; every
/// message it deletes is one the filter takes.
pub proof fn purge_spares_reply_and_pins(v: Seq<PurgeMessage>, reply_id: u64, filtre: Seq<char>, keep_pins: bool)
    ensures
        forall|i: int| 0 <= i < purge_selection_spec(v, reply_id, filtre, keep_pins).len() ==> {
            let m = #[trigger] purge_selection_spec(v, reply_id, filtre, keep_pins)[i];
            &&& m.id != reply_id
            &&& !(keep_pins && m.pinned)
            &&& filter_takes(filtre, m)
            &&& v.contains(m)
        },
    decreases v.len(),
{
    if v.len() > 0 {
        let rest = v.drop_last();
        purge_spares_reply_and_pins(rest, reply_id, filtre, keep_pins);
        let prev = purge_selection_spec(rest, reply_id, filtre, keep_pins);
        assert forall|j: int| 0 <= j < prev.len() implies v.contains(#[trigger] prev[j]) by {
            let k = choose|k: int| 0 <= k < rest.len() && rest[k] == prev[j];
            assert(v[k] == rest[k]);
        }
        assert(v[v.len() - 1] == v.last());
    }
}

/// The split by age loses and doubles nothing: the messages deleted in bulk
/// (younger than fourteen days) and those deleted one by one count, together,
/// all the messages to delete.
pub proof fn purge_ages_split_every_message(v: Seq<PurgeMessage>, now: i64)
    ensures
        young_spec(v, now).len() + old_spec(v, now).len() == v.len(),
    decreases v.len(),
{
    if v.len() > 0 {
        purge_ages_split_every_message(v.drop_last(), now);
    }
}

/// The messages of the channel that `/purge` deletes.
pub fn purge_selection(messages: &[PurgeMessage], reply_id: u64, filtre: &str, keep_pins: bool) -> (r: Vec<PurgeMessage>)
    ensures
        r@ == purge_selection_spec(messages@, reply_id, filtre@, keep_pins),
{
    let pins = same_text(filtre, "pins");
    let bot = same_text(filtre, "bot");
    let mut out: Vec<PurgeMessage> = Vec::new();
    let mut i: usize = 0;
    while i < messages.len()
        invariant
            i <= messages@.len(),
            pins == (filtre@ == "pins"@),
            bot == (filtre@ == "bot"@),
            out@ == purge_selection_spec(messages@.take(i as int), reply_id, filtre@, keep_pins),
        decreases messages@.len() - i,
    {
        assert(messages@.take(i + 1).drop_last() =~= messages@.take(i as int));
        assert(messages@.take(i + 1).last() == messages@[i as int]);
        let m = messages[i];
        let takes = if pins {
            m.pin_notice
        } else if bot {
            m.from_bot || m.pin_notice
        } else {
            true
        };
        if m.id != reply_id && !(keep_pins && m.pinned) && takes {
            out.push(m);
        }
        i = i + 1;
    }
    assert(messages@.take(messages@.len() as int) =~= messages@);
    out
}

/// Seconds in fourteen days: beyond that age, Discord deletes messages one
/// by one only.
pub const BULK_AGE_LIMIT: i64 = 1209600;

/// Messages young enough for a bulk deletion, and the others, each in
/// order.
pub open spec fn young_spec(v: Seq<PurgeMessage>, now: i64) -> Seq<u64>
    decreases v.len(),
{
    if v.len() == 0 {
        Seq::empty()
    } else if v.last().timestamp > now - BULK_AGE_LIMIT {
        young_spec(v.drop_last(), now).push(v.last().id)
    } else {
        young_spec(v.drop_last(), now)
    }
}

/// Messages too old for a bulk deletion, in order.
pub open spec fn old_spec(v: Seq<PurgeMessage>, now: i64) -> Seq<u64>
    decreases v.len(),
{
    if v.len() == 0 {
        Seq::empty()
    } else if !(v.last().timestamp > now - BULK_AGE_LIMIT) {
        old_spec(v.drop_last(), now).push(v.last().id)
    } else {
        old_spec(v.drop_last(), now)
    }
}

/// Splits the messages to delete by age (`now` in Unix seconds): those of
/// the last fourteen days, and the older ones.
pub fn split_by_age(messages: &[PurgeMessage], now: i64) -> (r: (Vec<u64>, Vec<u64>))
    requires
        now >= i64::MIN + BULK_AGE_LIMIT,
    ensures
        r.0@ == young_spec(messages@, now),
        r.1@ == old_spec(messages@, now),
{
    let limit = now - BULK_AGE_LIMIT;
    let mut young: Vec<u64> = Vec::new();
    let mut old: Vec<u64> = Vec::new();
    let mut i: usize = 0;
    while i < messages.len()
        invariant
            i <= messages@.len(),
            limit == now - BULK_AGE_LIMIT,
            young@ == young_spec(messages@.take(i as int), now),
            old@ == old_spec(messages@.take(i as int), now),
        decreases messages@.len() - i,
    {
        assert(messages@.take(i + 1).drop_last() =~= messages@.take(i as int));
        assert(messages@.take(i + 1).last() == messages@[i as int]);
        if messages[i].timestamp > limit {
            young.push(messages[i].id);
        } else {
            old.push(messages[i].id);
        }
        i = i + 1;
    }
    assert(messages@.take(messages@.len() as int) =~= messages@);
    (young, old)
}

/// Report of a purge.
pub fn purge_report(deleted: usize) -> (r: String)
    ensures
        r@ == "🧹 **"@ + nat_text(deleted as nat) + " message(s)** supprimé(s) avec succès !"@,
{
    let mut s = owned("🧹 **");
    push_u64(&mut s, deleted as u64);
    push_str(&mut s, " message(s)** supprimé(s) avec succès !");
    s
}

} // verus!
