//! The game portal: sessions of a game server on Discord (their buttons,
//! role and channel names, topics, announcements and repair reports).

use vstd::prelude::*;
use vstd::string::*;

use crate::api_client::{GameServer, GameTemplate};
use crate::config::GuildConfig;
use crate::embeds::{buttons_view, fields_view, Button, ButtonStyle, Embed};
use crate::dates::{rfc3339_seconds, rfc3339_timestamp};
use crate::json::{json_document, json_get, parse_json, str_field, u64_field, Json};

use crate::text::{
    byte_len, chars_of, contains_text, ends_with_text, find_chars_from, find_first, find_from,
    has_infix, has_prefix, is_ws, has_suffix, int_text, is_alnum, is_alnum_exec, joined, last_index_of,
    lemma_find_from, lemma_utf8_len_bounds, lemma_utf8_len_concat, utf8_width, lower_char, lower_char_exec,
    nat_text, opt_string, opt_text, occurs_at, owned, push_char, push_i64, push_str, push_u64, rfind_char, slice_chars,
    starts_with_text, strip_end_all, strip_end_bound, strip_start_all, strip_start_bound, text_of,
    text_of_range, trim, trim_bounds, trim_end, trim_start, utf8_len, views, parse_u64, parse_u64_spec,
};

verus! {

/// Prefix of the custom id of the registration button.
pub const REGISTER_PREFIX: &'static str = "gp_register:";
/// Prefix of the custom id of the unregistration button.
pub const UNREGISTER_PREFIX: &'static str = "gp_unregister:";
/// Prefix of the custom id of the button that reveals the address.
pub const REVEAL_IP_PREFIX: &'static str = "gp_reveal_ip:";

/// The custom id belongs to a button of the portal.
pub open spec fn portal_component(cid: Seq<char>) -> bool {
    has_prefix(cid, REGISTER_PREFIX@) || has_prefix(cid, UNREGISTER_PREFIX@) || has_prefix(
        cid,
        REVEAL_IP_PREFIX@,
    )
}

/// The portal answers this component.
pub fn handles_component(custom_id: &str) -> (r: bool)
    ensures
        r == portal_component(custom_id@),
{
    starts_with_text(custom_id, REGISTER_PREFIX) || starts_with_text(custom_id, UNREGISTER_PREFIX)
        || starts_with_text(custom_id, REVEAL_IP_PREFIX)
}

// ---------------------------------------------------------------------
// Session names
// ---------------------------------------------------------------------

/// The ASCII letters and digits of `s`, in order.
pub open spec fn alnum_chars(s: Seq<char>) -> Seq<char>
    decreases s.len(),
{
    if s.len() == 0 {
        Seq::empty()
    } else if is_alnum(s.last()) {
        alnum_chars(s.drop_last()).push(s.last())
    } else {
        alnum_chars(s.drop_last())
    }
}

/// At most the first `n` elements of `s`.
pub open spec fn at_most(s: Seq<char>, n: nat) -> Seq<char> {
    if s.len() <= n {
        s
    } else {
        s.take(n as int)
    }
}

/// Suffix of a session: the first eight ASCII letters and digits of the
/// server id.
pub open spec fn suffix_of(server_id: Seq<char>) -> Seq<char> {
    at_most(alnum_chars(server_id), 8)
}

/// Suffix that the names of a session carry.
pub fn session_suffix(server_id: &str) -> (r: String)
    ensures
        r@ == suffix_of(server_id@),
{
    let v = chars_of(server_id);
    let mut out = String::new();
    let mut n: usize = 0;
    let mut i: usize = 0;
    while i < v.len()
        invariant
            v@ == server_id@,
            i <= v@.len(),
            n == out@.len(),
            out@ == at_most(alnum_chars(v@.take(i as int)), 8),
        decreases v@.len() - i,
    {
        let ghost pre = v@.take(i as int);
        assert(v@.take(i + 1).drop_last() =~= pre);
        let c = v[i];
        if is_alnum_exec(c) && n < 8 {
            push_char(&mut out, c);
            n = n + 1;
        }
        i = i + 1;
    }
    assert(v@.take(v@.len() as int) =~= v@);
    out
}

/// One step of the slug: letters and digits kept in lower case, any other
/// run of characters written once as `-` once something was written.
pub open spec fn slug_fold(s: Seq<char>) -> (Seq<char>, bool)
    decreases s.len(),
{
    if s.len() == 0 {
        (Seq::empty(), false)
    } else {
        let prev = slug_fold(s.drop_last());
        let c = s.last();
        if is_alnum(c) {
            (prev.0.push(lower_char(c)), false)
        } else if !prev.1 && prev.0.len() > 0 {
            (prev.0.push('-'), true)
        } else {
            prev
        }
    }
}

/// `s` without its trailing dashes.
pub open spec fn trim_dashes(s: Seq<char>) -> Seq<char>
    decreases s.len(),
{
    if s.len() > 0 && s.last() == '-' {
        trim_dashes(s.drop_last())
    } else {
        s
    }
}

/// Channel-safe name: lower-case letters and digits joined by single
/// dashes, `serveur` when nothing is left.
pub open spec fn slug(s: Seq<char>) -> Seq<char> {
    let t = trim_dashes(slug_fold(s).0);
    if t.len() == 0 {
        "serveur"@
    } else {
        t
    }
}

/// Valid Discord channel name: lower case, dashes, no accents.
pub fn slugify(s: &str) -> (r: String)
    ensures
        r@ == slug(s@),
{
    let v = chars_of(s);
    let mut out: Vec<char> = Vec::new();
    let mut last_dash = false;
    let mut i: usize = 0;
    while i < v.len()
        invariant
            v@ == s@,
            i <= v@.len(),
            (out@, last_dash) == slug_fold(v@.take(i as int)),
        decreases v@.len() - i,
    {
        assert(v@.take(i + 1).drop_last() =~= v@.take(i as int));
        let c = v[i];
        if is_alnum_exec(c) {
            out.push(lower_char_exec(c));
            last_dash = false;
        } else if !last_dash && out.len() > 0 {
            out.push('-');
            last_dash = true;
        }
        i = i + 1;
    }
    assert(v@.take(v@.len() as int) =~= v@);
    let mut k = out.len();
    assert(out@.take(k as int) =~= out@);
    while k > 0 && out[k - 1] == '-'
        invariant
            k <= out@.len(),
            trim_dashes(out@) == trim_dashes(out@.take(k as int)),
        decreases k,
    {
        assert(out@.take(k - 1) =~= out@.take(k as int).drop_last());
        k = k - 1;
    }
    if k == 0 {
        proof {
            assert(out@.take(0) =~= Seq::<char>::empty());
        }
        owned("serveur")
    } else {
        let t = text_of_range(&out, 0, k);
        proof {
            assert(out@.subrange(0, k as int) =~= out@.take(k as int));
            let tk = out@.take(k as int);
            assert(tk.last() != '-');
        }
        t
    }
}

/// Name of the role of a session.
pub open spec fn role_name(game_name: Seq<char>, server_id: Seq<char>) -> Seq<char> {
    slug(game_name) + seq!['_'] + suffix_of(server_id)
}

/// Name of the role of a session: `{slug of the game}_{suffix}`.
pub fn session_role_name(game_name: &str, server_id: &str) -> (r: String)
    ensures
        r@ == role_name(game_name@, server_id@),
{
    let mut r = slugify(game_name);
    push_char(&mut r, '_');
    let suffix = session_suffix(server_id);
    push_str(&mut r, suffix.as_str());
    r
}

/// The role named `role` belongs to session `server_id`: the server id gives
/// a full eight-character suffix and the name ends with `_` and that suffix.
pub open spec fn session_role(role: Seq<char>, server_id: Seq<char>) -> bool {
    suffix_of(server_id).len() >= 8 && has_suffix(role, seq!['_'] + suffix_of(server_id))
}

/// Does this role belong to session `server_id`? Never with an id that has
/// fewer than eight ASCII letters and digits.
pub fn role_de_session(nom_du_role: &str, server_id: &str) -> (r: bool)
    ensures
        r == session_role(nom_du_role@, server_id@),
{
    let suffixe = session_suffix(server_id);
    if suffixe.as_str().unicode_len() < 8 {
        return false;
    }
    let mut attendu = String::new();
    push_char(&mut attendu, '_');
    push_str(&mut attendu, suffixe.as_str());
    assert(attendu@ =~= seq!['_'] + suffix_of(server_id@));
    ends_with_text(nom_du_role, attendu.as_str())
}

/// The role of a session is recognized as belonging to it, whatever the
/// game, as soon as the server id has eight ASCII letters or digits.
pub proof fn own_session_role_is_recognized(game_name: Seq<char>, server_id: Seq<char>)
    ensures
        session_role(role_name(game_name, server_id), server_id) <==> suffix_of(server_id).len()
            >= 8,
{
    let tail = seq!['_'] + suffix_of(server_id);
    let name = role_name(game_name, server_id);
    assert(name =~= slug(game_name) + tail);
    assert(name.subrange(name.len() - tail.len(), name.len() as int) =~= tail);
}

proof fn lemma_suffix_alnum(server_id: Seq<char>)
    ensures
        suffix_of(server_id).len() <= 8,
        forall|i: int| 0 <= i < suffix_of(server_id).len() ==> is_alnum(#[trigger] suffix_of(server_id)[i]),
{
    lemma_alnum_chars(server_id);
}

proof fn lemma_alnum_chars(s: Seq<char>)
    ensures
        forall|i: int| 0 <= i < alnum_chars(s).len() ==> is_alnum(#[trigger] alnum_chars(s)[i]),
    decreases s.len(),
{
    if s.len() > 0 {
        let prev = alnum_chars(s.drop_last());
        lemma_alnum_chars(s.drop_last());
        if is_alnum(s.last()) {
            assert forall|i: int| 0 <= i < prev.len() + 1 implies is_alnum(#[trigger] prev.push(s.last())[i]) by {
                if i < prev.len() {
                    assert(prev.push(s.last())[i] == prev[i]);
                }
            }
        }
    }
}

/// The role of a session is taken for a role of session `server_id` exactly
/// when both sessions carry the same full suffix: the role of a session with
/// another suffix is never taken, whatever the game.
pub proof fn session_roles_are_told_apart(game_name: Seq<char>, other: Seq<char>, server_id: Seq<char>)
    ensures
        session_role(role_name(game_name, other), server_id) <==> (suffix_of(server_id).len() >= 8
            && suffix_of(other) == suffix_of(server_id)),
{
    let a = suffix_of(server_id);
    let b = suffix_of(other);
    let name = role_name(game_name, other);
    let tail = seq!['_'] + a;
    lemma_suffix_alnum(server_id);
    lemma_suffix_alnum(other);
    if session_role(name, server_id) {
        let n = name.len() as int;
        let w = name.subrange(n - 9, n);
        assert(w == tail);
        assert(name =~= slug(game_name) + seq!['_'] + b);
        if b.len() == 8 {
            assert forall|i: int| 0 <= i < 8 implies a[i] == b[i] by {
                assert(w[i + 1] == a[i]);
                assert(name[n - 8 + i] == b[i]);
            }
            assert(a =~= b);
        } else {
            let m = n - b.len() - 1;
            assert(name[m] == '_');
            assert(w[m - (n - 9)] == name[m]);
            assert(a[m - (n - 9) - 1] == '_');
            assert(!is_alnum('_'));
        }
    }
    if a.len() >= 8 && b == a {
        assert(name =~= role_name(game_name, server_id));
        own_session_role_is_recognized(game_name, server_id);
    }
}

/// A role whose name holds no `_` is never taken for the role of a session.
pub proof fn plain_names_are_not_session_roles(role: Seq<char>, server_id: Seq<char>)
    requires
        forall|i: int| 0 <= i < role.len() ==> role[i] != '_',
    ensures
        !session_role(role, server_id),
{
    if session_role(role, server_id) {
        let tail = seq!['_'] + suffix_of(server_id);
        let n = role.len() as int;
        assert(role.subrange(n - tail.len(), n)[0] == tail[0]);
    }
}

/// Name of the private channel of sessions created before channel names
/// followed the game.
pub fn legacy_private_text_name(server_id: &str) -> (r: String)
    ensures
        r@ == "joueurs-"@ + suffix_of(server_id@),
{
    let mut r = owned("joueurs-");
    let s = session_suffix(server_id);
    push_str(&mut r, s.as_str());
    r
}

/// Topic of the registration channel of a session.
pub open spec fn registration_topic_spec(server_id: Seq<char>) -> Seq<char> {
    "Nexus Game Portal | session:"@ + server_id + " | registration"@
}

/// Topic of the registration channel of a session.
pub fn registration_topic(server_id: &str) -> (r: String)
    ensures
        r@ == registration_topic_spec(server_id@),
{
    let mut r = owned("Nexus Game Portal | session:");
    push_str(&mut r, server_id);
    push_str(&mut r, " | registration");
    r
}

/// Topic of the private channel of a session.
pub open spec fn private_topic(server_id: Seq<char>) -> Seq<char> {
    "Nexus Game Portal | session:"@ + server_id + " | private"@
}

/// Topic of the private channel of a session.
pub fn private_text_topic(server_id: &str) -> (r: String)
    ensures
        r@ == private_topic(server_id@),
{
    let mut r = owned("Nexus Game Portal | session:");
    push_str(&mut r, server_id);
    push_str(&mut r, " | private");
    r
}

// ---------------------------------------------------------------------
// Channel topics
// ---------------------------------------------------------------------

/// Separator that ends the session id in a topic.
pub open spec fn is_sep(c: char) -> bool {
    c == ' ' || c == '|'
}

/// `s` up to its first separator (the first piece of std `split` on
/// `[' ', '|']`).
pub open spec fn first_piece(s: Seq<char>) -> Seq<char>
    decreases s.len(),
{
    if s.len() == 0 || is_sep(s[0]) {
        Seq::empty()
    } else {
        seq![s[0]] + first_piece(s.drop_first())
    }
}

proof fn lemma_first_piece(s: Seq<char>, i: int)
    requires
        0 <= i <= s.len(),
        forall|j: int| 0 <= j < i ==> !is_sep(s[j]),
        i == s.len() || is_sep(s[i]),
    ensures
        first_piece(s) == s.take(i),
    decreases i,
{
    if i > 0 {
        assert forall|j: int| 0 <= j < i - 1 implies !is_sep(s.drop_first()[j]) by {
            assert(s.drop_first()[j] == s[j + 1]);
        }
        if i < s.len() {
            assert(s.drop_first()[i - 1] == s[i]);
        }
        lemma_first_piece(s.drop_first(), i - 1);
        assert(seq![s[0]] + s.drop_first().take(i - 1) =~= s.take(i));
    } else {
        assert(s.take(0) =~= Seq::<char>::empty());
    }
}

fn first_piece_len(s: &Vec<char>) -> (k: usize)
    ensures
        k <= s@.len(),
        s@.take(k as int) == first_piece(s@),
{
    let mut i: usize = 0;
    while i < s.len() && !(s[i] == ' ' || s[i] == '|')
        invariant
            i <= s@.len(),
            forall|j: int| 0 <= j < i ==> !is_sep(s@[j]),
        decreases s@.len() - i,
    {
        i = i + 1;
    }
    proof {
        lemma_first_piece(s@, i as int);
    }
    i
}

/// Session id that a channel topic carries: what follows the first
/// `session:`, up to the next `session:`, cut at the first space or `|`,
/// trimmed; nothing when that is empty.
pub open spec fn topic_session_id(topic: Seq<char>) -> Option<Seq<char>> {
    match find_first(topic, "session:"@) {
        None => None,
        Some(p) => {
            let start = p + "session:"@.len();
            let end = match find_from(topic, "session:"@, start) {
                Some(q) => q,
                None => topic.len() as int,
            };
            let id = trim(first_piece(topic.subrange(start, end)));
            if id.len() == 0 {
                None
            } else {
                Some(id)
            }
        },
    }
}

proof fn lemma_topic_gives_back(id: Seq<char>, s: Seq<char>)
    requires
        id.len() > 0,
        forall|i: int| 0 <= i < id.len() ==> !is_sep(#[trigger] id[i]),
        !is_ws(id[0]),
        !is_ws(id.last()),
        !has_infix(id, "session:"@),
        s.len() > 0,
        s[0] == ' ',
        forall|i: int| 0 <= i < s.len() ==> #[trigger] s[i] != ':',
    ensures
        topic_session_id("Nexus Game Portal | session:"@ + id + s) == Some(id),
{
    reveal_strlit("Nexus Game Portal | session:");
    reveal_strlit("session:");
    let p = "Nexus Game Portal | session:"@;
    let k = "session:"@;
    assert(p =~= seq!['N', 'e', 'x', 'u', 's', ' ', 'G', 'a', 'm', 'e', ' ', 'P', 'o', 'r', 't', 'a', 'l', ' ', '|', ' ', 's', 'e', 's', 's', 'i', 'o', 'n', ':']);
    assert(k =~= seq!['s', 'e', 's', 's', 'i', 'o', 'n', ':']);
    let t = p + id + s;
    let n = id.len() as int;
    assert(t.subrange(20, 28) =~= k);
    assert(occurs_at(t, k, 20));
    assert forall|j: int| 0 <= j < 20 implies !occurs_at(t, k, j) by {
        if occurs_at(t, k, j) {
            assert(t.subrange(j, j + 8)[7] == k[7]);
            assert(t[j + 7] == p[j + 7]);
        }
    }
    lemma_find_from(t, k, 0);
    assert(find_first(t, k) == Some(20int));
    assert forall|j: int| 28 <= j implies !occurs_at(t, k, j) by {
        if occurs_at(t, k, j) {
            if j + 8 <= 28 + n {
                assert(id.subrange(j - 28, j - 20) =~= t.subrange(j, j + 8));
                assert(occurs_at(id, k, j - 28));
            } else if j < 28 + n {
                let m = 28 + n;
                assert(t.subrange(j, j + 8)[m - j] == k[m - j]);
                assert(t[m] == s[0]);
                assert(1 <= m - j < 8);
                assert(k[m - j] != ' ');
            } else {
                assert(t.subrange(j, j + 8)[7] == k[7]);
                assert(t[j + 7] == s[j + 7 - 28 - n]);
            }
        }
    }
    lemma_find_from(t, k, 28);
    assert(find_from(t, k, 28) is None);
    let rest = t.subrange(28, t.len() as int);
    assert(rest =~= id + s);
    assert forall|j: int| 0 <= j < n implies !is_sep(rest[j]) by {
        assert(rest[j] == id[j]);
    }
    assert(rest[n] == s[0]);
    lemma_first_piece(rest, n);
    assert(rest.take(n) =~= id);
    assert(trim_start(id) == id);
    assert(trim_end(id) == id);
}

/// The topics written on the channels of a session give back the session:
/// reading the topic of its registration channel or of its private channel
/// finds exactly the id they were written with, for every non-empty id
/// without a space or a `|`, without `session:` in it and without white
/// space at either end.
pub proof fn session_topics_give_back_their_session(id: Seq<char>)
    requires
        id.len() > 0,
        forall|i: int| 0 <= i < id.len() ==> !is_sep(#[trigger] id[i]),
        !is_ws(id[0]),
        !is_ws(id.last()),
        !has_infix(id, "session:"@),
    ensures
        topic_session_id(private_topic(id)) == Some(id),
        topic_session_id(registration_topic_spec(id)) == Some(id),
{
    reveal_strlit(" | private");
    reveal_strlit(" | registration");
    let a = " | private"@;
    let b = " | registration"@;
    assert(a =~= seq![' ', '|', ' ', 'p', 'r', 'i', 'v', 'a', 't', 'e']);
    assert(b =~= seq![' ', '|', ' ', 'r', 'e', 'g', 'i', 's', 't', 'r', 'a', 't', 'i', 'o', 'n']);
    lemma_topic_gives_back(id, a);
    lemma_topic_gives_back(id, b);
}

/// Server id of a session channel, read from its topic (`... | session:{id}
/// | ...`); nothing for another channel.
pub fn server_id_from_topic(topic: &str) -> (r: Option<&str>)
    ensures
        r matches Some(id) ==> topic_session_id(topic@) == Some(id@),
        r is None ==> topic_session_id(topic@) is None,
{
    let v = chars_of(topic);
    let pat = chars_of("session:");
    let p = match find_chars_from(&v, &pat, 0) {
        Some(p) => p,
        None => return None,
    };
    proof {
        lemma_find_from(v@, pat@, 0);
        assert(find_from(v@, pat@, 0) == Some(p as int));
        assert(occurs_at(v@, pat@, p as int));
        assert(p + pat@.len() <= v@.len());
    }
    let vlen = v.len();
    let start = p + pat.len();
    let end = match find_chars_from(&v, &pat, start) {
        Some(q) => q,
        None => v.len(),
    };
    proof {
        if find_from(v@, pat@, start as int) is Some {
            lemma_find_from(v@, pat@, start as int);
        }
    }
    let piece = slice_chars(&v, start, end);
    let k = first_piece_len(&piece);
    let head = slice_chars(&piece, 0, k);
    let (a, b) = trim_bounds(&head);
    assert(head@ =~= first_piece(v@.subrange(start as int, end as int)));
    if a == b {
        return None;
    }
    let r = topic.substring_char(start + a, start + b);
    assert(r@ =~= head@.subrange(a as int, b as int));
    Some(r)
}

// ---------------------------------------------------------------------
// Settings blocks
// ---------------------------------------------------------------------

/// Blocks of settings lines: lines are joined by line breaks, and a new
/// block starts when adding the next line would pass 1000 bytes.
pub open spec fn chunk_fold(lines: Seq<Seq<char>>) -> (Seq<Seq<char>>, Seq<char>)
    decreases lines.len(),
{
    if lines.len() == 0 {
        (Seq::empty(), Seq::empty())
    } else {
        let prev = chunk_fold(lines.drop_last());
        let line = lines.last();
        let full = prev.1.len() > 0 && utf8_len(prev.1) + utf8_len(line) + 1 > 1000;
        let done = if full { prev.0.push(prev.1) } else { prev.0 };
        let cur = if full { Seq::empty() } else { prev.1 };
        let next = if cur.len() > 0 { cur.push('\n') + line } else { cur + line };
        (done, next)
    }
}

/// The blocks, the last one included when it is not empty.
pub open spec fn chunks_of(lines: Seq<Seq<char>>) -> Seq<Seq<char>> {
    let f = chunk_fold(lines);
    if f.1.len() > 0 {
        f.0.push(f.1)
    } else {
        f.0
    }
}

proof fn lemma_push_newline_len(s: Seq<char>)
    ensures
        utf8_len(s.push('\n')) == utf8_len(s) + 1,
{
    assert(s.push('\n').drop_last() =~= s);
}

proof fn lemma_chunk_fold_fits(lines: Seq<Seq<char>>)
    requires
        forall|i: int| 0 <= i < lines.len() ==> utf8_len(#[trigger] lines[i]) <= 1000,
    ensures
        forall|i: int| 0 <= i < chunk_fold(lines).0.len() ==> 0 < utf8_len(#[trigger] chunk_fold(lines).0[i]) <= 1000,
        utf8_len(chunk_fold(lines).1) <= 1000,
    decreases lines.len(),
{
    if lines.len() > 0 {
        let rest = lines.drop_last();
        assert forall|i: int| 0 <= i < rest.len() implies utf8_len(#[trigger] rest[i]) <= 1000 by {
            assert(rest[i] == lines[i]);
        }
        lemma_chunk_fold_fits(rest);
        let prev = chunk_fold(rest);
        let line = lines.last();
        assert(utf8_len(line) <= 1000);
        lemma_utf8_len_bounds(prev.1);
        lemma_push_newline_len(prev.1);
        lemma_utf8_len_concat(prev.1.push('\n'), line);
        lemma_utf8_len_concat(prev.1, line);
    }
}

/// Every block of settings fits in the value of an embed field: none is
/// empty and none passes 1000 bytes, as long as no single settings line does.
pub proof fn settings_blocks_fit_a_field(lines: Seq<Seq<char>>)
    requires
        forall|i: int| 0 <= i < lines.len() ==> utf8_len(#[trigger] lines[i]) <= 1000,
    ensures
        forall|i: int| 0 <= i < chunks_of(lines).len() ==> 0 < utf8_len(#[trigger] chunks_of(lines)[i]) <= 1000,
{
    lemma_chunk_fold_fits(lines);
    let f = chunk_fold(lines);
    lemma_utf8_len_bounds(f.1);
}

proof fn lemma_chunk_fold_keeps_lines(lines: Seq<Seq<char>>)
    requires
        lines.len() > 0,
        forall|i: int| 0 <= i < lines.len() ==> (#[trigger] lines[i]).len() > 0,
    ensures
        chunk_fold(lines).1.len() > 0,
        joined(chunk_fold(lines).0.push(chunk_fold(lines).1), seq!['\n']) == joined(lines, seq!['\n']),
    decreases lines.len(),
{
    let nl = seq!['\n'];
    let rest = lines.drop_last();
    let line = lines.last();
    assert(line.len() > 0);
    if rest.len() == 0 {
        assert(chunk_fold(rest) == (Seq::<Seq<char>>::empty(), Seq::<char>::empty()));
        assert(Seq::<char>::empty() + line =~= line);
        assert(Seq::<Seq<char>>::empty().push(line) =~= seq![line]);
    } else {
        assert forall|i: int| 0 <= i < rest.len() implies (#[trigger] rest[i]).len() > 0 by {
            assert(rest[i] == lines[i]);
        }
        lemma_chunk_fold_keeps_lines(rest);
        let prev = chunk_fold(rest);
        let full = prev.1.len() > 0 && utf8_len(prev.1) + utf8_len(line) + 1 > 1000;
        assert(joined(lines, nl) == joined(rest, nl) + nl + line);
        if full {
            let done = prev.0.push(prev.1);
            assert(chunk_fold(lines) == (done, Seq::<char>::empty() + line));
            assert(Seq::<char>::empty() + line =~= line);
            assert(done.push(line).drop_last() =~= done);
        } else {
            let next = prev.1.push('\n') + line;
            assert(chunk_fold(lines) == (prev.0, next));
            assert(next =~= prev.1 + nl + line);
            if prev.0.len() == 0 {
                assert(prev.0.push(prev.1) =~= seq![prev.1]);
                assert(prev.0.push(next) =~= seq![next]);
            } else {
                assert(prev.0.push(next).drop_last() =~= prev.0);
                assert(prev.0.push(prev.1).drop_last() =~= prev.0);
                assert(joined(prev.0.push(next), nl) == joined(prev.0, nl) + nl + next);
                assert(joined(prev.0.push(prev.1), nl) == joined(prev.0, nl) + nl + prev.1);
                assert(joined(prev.0, nl) + nl + next =~= joined(prev.0, nl) + nl + prev.1 + nl + line);
            }
        }
    }
}

/// Cutting the settings into blocks loses and adds nothing: the blocks,
/// joined by line breaks, give back the lines joined by line breaks, as long
/// as no line is empty.
pub proof fn settings_blocks_keep_every_line(lines: Seq<Seq<char>>)
    requires
        forall|i: int| 0 <= i < lines.len() ==> (#[trigger] lines[i]).len() > 0,
    ensures
        joined(chunks_of(lines), "\n"@) == joined(lines, "\n"@),
{
    reveal_strlit("\n");
    assert("\n"@ =~= seq!['\n']);
    if lines.len() > 0 {
        lemma_chunk_fold_keeps_lines(lines);
    }
}

/// Splits the settings lines into blocks that fit in the value of an embed
/// field (Discord's hard limit is 1024; 1000 leaves a margin).
pub fn chunk_options(options: &[String]) -> (r: Vec<String>)
    ensures
        views(r@) == chunks_of(views(options@)),
{
    let ghost lines = views(options@);
    let mut chunks: Vec<String> = Vec::new();
    let mut current = String::new();
    let mut cur_len: u128 = 0;
    let mut i: usize = 0;
    while i < options.len()
        invariant
            lines == views(options@),
            i <= options@.len(),
            (views(chunks@), current@) == chunk_fold(lines.take(i as int)),
            cur_len == utf8_len(current@),
            cur_len <= 0x1_0000_0000_0000_0000_0000,
        decreases options@.len() - i,
    {
        assert(lines.take(i + 1).drop_last() =~= lines.take(i as int));
        let line = options[i].as_str();
        let line_len = byte_len(line);
        let line_chars = line.unicode_len();
        proof {
            lemma_utf8_len_bounds(line@);
            assert(line_len <= 4 * line_chars);
        }
        let cur_chars = current.as_str().unicode_len();
        if cur_chars > 0 && cur_len + line_len + 1 > 1000 {
            let done = current;
            let ghost before = views(chunks@);
            chunks.push(done);
            assert(views(chunks@) =~= before.push(done@));
            current = String::new();
            cur_len = 0;
        }
        if current.as_str().unicode_len() > 0 {
            let ghost c0 = current@;
            push_char(&mut current, '\n');
            proof {
                lemma_utf8_len_concat(c0, seq!['\n']);
                assert(utf8_len(seq!['\n']) == 1) by {
                    let e = Seq::<char>::empty();
                    assert(utf8_len(e) == 0);
                    assert(seq!['\n'].drop_last() =~= e);
                    assert(utf8_len(seq!['\n']) == utf8_len(e) + utf8_width('\n'));
                }
                assert(current@ =~= c0 + seq!['\n']);
            }
            cur_len = cur_len + 1;
        }
        let ghost c1 = current@;
        push_str(&mut current, line);
        proof {
            lemma_utf8_len_concat(c1, line@);
        }
        cur_len = cur_len + line_len;
        i = i + 1;
    }
    assert(lines.take(options@.len() as int) =~= lines);
    if current.as_str().unicode_len() > 0 {
        let ghost before = views(chunks@);
        chunks.push(current);
        assert(views(chunks@) =~= before.push(chunk_fold(lines).1));
    }
    chunks
}

// ---------------------------------------------------------------------
// Covers
// ---------------------------------------------------------------------

/// Suffix of the cover file for the state shown (or, from older answers of
/// the API, the raw status of the container).
pub open spec fn status_suffix(etat: Seq<char>) -> Seq<char> {
    if etat == "open"@ || etat == "running"@ {
        Seq::empty()
    } else if etat == "waiting"@ || etat == "scheduled"@ || etat == "starting"@ {
        "_attente"@
    } else {
        "_offline"@
    }
}

/// `base` without one status suffix (`_attente`, `_waiting` or `_offline`,
/// the first that it ends with).
pub open spec fn without_status(base: Seq<char>) -> Seq<char> {
    if has_suffix(base, "_attente"@) {
        base.take(base.len() - "_attente"@.len())
    } else if has_suffix(base, "_waiting"@) {
        base.take(base.len() - "_waiting"@.len())
    } else if has_suffix(base, "_offline"@) {
        base.take(base.len() - "_offline"@.len())
    } else {
        base
    }
}

/// Drops a status suffix from the file name of a cover.
pub fn strip_status_suffix(base: &str) -> (r: &str)
    ensures
        r@ == without_status(base@),
{
    let n = base.unicode_len();
    if ends_with_text(base, "_attente") {
        let k = chars_of("_attente").len();
        return base.substring_char(0, n - k);
    }
    if ends_with_text(base, "_waiting") {
        let k = chars_of("_waiting").len();
        return base.substring_char(0, n - k);
    }
    if ends_with_text(base, "_offline") {
        let k = chars_of("_offline").len();
        return base.substring_char(0, n - k);
    }
    assert(base@.subrange(0, n as int) =~= base@);
    base.substring_char(0, n)
}

/// Full address of a cover: kept when it is already absolute, else joined
/// to the web front's base address (nothing without one).
pub open spec fn cover_full_url(path: Seq<char>, base: Option<Seq<char>>) -> Option<Seq<char>> {
    if has_prefix(path, "https://"@) || has_prefix(path, "http://"@) {
        Some(path)
    } else {
        match base {
            None => None,
            Some(b) => {
                let root = strip_end_all(trim(b), '/');
                if root.len() == 0 {
                    None
                } else {
                    Some(root + seq!['/'] + strip_start_all(path, '/'))
                }
            },
        }
    }
}

/// Cover matching the state shown: the file with the state's suffix put
/// before its extension, in place of any status suffix it had.
pub open spec fn cover_url(path: Option<Seq<char>>, etat: Seq<char>, base: Option<Seq<char>>) -> Option<Seq<char>> {
    match path {
        None => None,
        Some(p0) => {
            let p = trim(p0);
            if p.len() == 0 {
                None
            } else {
                match cover_full_url(p, base) {
                    None => None,
                    Some(full) => {
                        let suffix = status_suffix(etat);
                        if suffix.len() == 0 {
                            Some(full)
                        } else {
                            match last_index_of(full, '.') {
                                None => None,
                                Some(d) => Some(without_status(full.take(d)) + suffix + full.skip(d)),
                            }
                        }
                    },
                }
            }
        },
    }
}

fn status_suffix_of(etat: &str) -> (r: &'static str)
    ensures
        r@ == status_suffix(etat@),
{
    if crate::text::same_text(etat, "open") || crate::text::same_text(etat, "running") {
        proof {
            reveal_strlit("");
        }
        assert(""@ =~= Seq::<char>::empty());
        ""
    } else if crate::text::same_text(etat, "waiting") || crate::text::same_text(etat, "scheduled")
        || crate::text::same_text(etat, "starting") {
        "_attente"
    } else {
        "_offline"
    }
}

/// Cover of a session for the state shown, from the path the API stores
/// (relative paths are joined to `web_front_url`, the base address of the
/// web front).
pub fn public_cover_url_for_status(path: Option<&str>, etat_ou_statut: &str, web_front_url: Option<&str>) -> (r: Option<String>)
    ensures
        r matches Some(u) ==> cover_url(opt_text(path), etat_ou_statut@, opt_text(web_front_url)) == Some(u@),
        r is None ==> cover_url(opt_text(path), etat_ou_statut@, opt_text(web_front_url)) is None,
{
    let path = match path {
        Some(p) => p,
        None => return None,
    };
    let pv = chars_of(path);
    let (a, b) = trim_bounds(&pv);
    if a == b {
        return None;
    }
    let p = text_of_range(&pv, a, b);
    let ghost tp = trim(path@);
    let full: String = if starts_with_text(p.as_str(), "https://") || starts_with_text(p.as_str(), "http://") {
        p
    } else {
        let base = match web_front_url {
            Some(b) => b,
            None => return None,
        };
        let bv = chars_of(base);
        let (ba, bb) = trim_bounds(&bv);
        let bt = slice_chars(&bv, ba, bb);
        let be = strip_end_bound(&bt, 0, bt.len(), '/');
        assert(bt@.subrange(0, bt@.len() as int) =~= bt@);
        if be == 0 {
            return None;
        }
        let mut full = text_of_range(&bt, 0, be);
        push_char(&mut full, '/');
        let ps = strip_start_bound(&pv, a, b, '/');
        let rest = text_of_range(&pv, ps, b);
        push_str(&mut full, rest.as_str());
        full
    };
    let ghost fullv = full@;
    assert(cover_full_url(tp, opt_text(web_front_url)) == Some(fullv));
    let suffix = status_suffix_of(etat_ou_statut);
    if suffix.unicode_len() == 0 {
        return Some(full);
    }
    let fv = chars_of(full.as_str());
    let d = match rfind_char(&fv, '.') {
        Some(d) => d,
        None => return None,
    };
    proof {
        crate::text::lemma_last_index_of(fv@, '.');
    }
    let head = text_of_range(&fv, 0, d);
    assert(head@ =~= fullv.take(d as int));
    let mut out = owned(strip_status_suffix(head.as_str()));
    push_str(&mut out, suffix);
    let tail = text_of_range(&fv, d, fv.len());
    assert(tail@ =~= fullv.skip(d as int));
    push_str(&mut out, tail.as_str());
    Some(out)
}

/// Cover of a running session.
pub fn public_cover_url(path: Option<&str>, web_front_url: Option<&str>) -> (r: Option<String>)
    ensures
        r matches Some(u) ==> cover_url(opt_text(path), "running"@, opt_text(web_front_url)) == Some(u@),
        r is None ==> cover_url(opt_text(path), "running"@, opt_text(web_front_url)) is None,
{
    public_cover_url_for_status(path, "running", web_front_url)
}

/// State that chooses the cover of a server: the one the API announces,
/// else the raw status.
pub fn etat_affiche(server: &GameServer) -> (r: &str)
    ensures
        r@ == match server.display_state {
            Some(d) => d@,
            None => server.status@,
        },
{
    match &server.display_state {
        Some(d) => d.as_str(),
        None => server.status.as_str(),
    }
}

// ---------------------------------------------------------------------
// Replies to the portal's buttons
// ---------------------------------------------------------------------

/// Error shown when a registration or unregistration fails.
pub fn format_registration_error_content(is_register: bool, err: &str) -> (r: String)
    ensures
        r@ == "❌ "@ + (if is_register { "Inscription"@ } else { "Désinscription"@ })
            + " impossible : "@ + err@,
{
    let mut r = owned("❌ ");
    if is_register {
        push_str(&mut r, "Inscription");
    } else {
        push_str(&mut r, "Désinscription");
    }
    push_str(&mut r, " impossible : ");
    push_str(&mut r, err);
    r
}

/// Acknowledgement of a registration or unregistration.
pub fn format_registration_ack_content(is_register: bool) -> (r: &'static str)
    ensures
        r@ == if is_register { "Inscription enregistrée"@ } else { "Désinscription enregistrée"@ },
{
    if is_register {
        "Inscription enregistrée"
    } else {
        "Désinscription enregistrée"
    }
}

/// Refusal shown to a member who is not the owner of the server.
pub fn format_owner_only_reveal_error() -> (r: &'static str)
    ensures
        r@ == "⛔ Seul le propriétaire du serveur peut révéler son adresse."@,
{
    "⛔ Seul le propriétaire du serveur peut révéler son adresse."
}

/// Acknowledgement of a reveal request, with the delay before the address
/// is shown.
pub fn format_reveal_ack(started: bool, delay_minutes: i64) -> (r: String)
    ensures
        r@ == (if started { "🚀 Le serveur démarre."@ } else { "🚀 Le serveur est déjà en ligne."@ })
            + " L'adresse de connexion sera révélée dans le salon privé des inscrits dans **"@
            + int_text(delay_minutes as int) + " minute(s)**."@,
{
    let mut r = if started {
        owned("🚀 Le serveur démarre.")
    } else {
        owned("🚀 Le serveur est déjà en ligne.")
    };
    push_str(&mut r, " L'adresse de connexion sera révélée dans le salon privé des inscrits dans **");
    push_i64(&mut r, delay_minutes);
    push_str(&mut r, " minute(s)**.");
    r
}

/// Mention of a role: `<@&{id}>`.
pub open spec fn role_mention(id: u64) -> Seq<char> {
    "<@&"@ + nat_text(id as nat) + ">"@
}

/// Daily reminder that a server opens.
pub fn format_daily_ping_content(role_id: u64, game_name: &str, when: &str) -> (r: String)
    ensures
        r@ == role_mention(role_id) + " Le serveur **"@ + game_name@ + "** ouvre "@ + when@
            + " ! Inscris-toi sur le panneau."@,
{
    let mut r = owned("<@&");
    push_u64(&mut r, role_id);
    push_str(&mut r, ">");
    push_str(&mut r, " Le serveur **");
    push_str(&mut r, game_name);
    push_str(&mut r, "** ouvre ");
    push_str(&mut r, when);
    push_str(&mut r, " ! Inscris-toi sur le panneau.");
    r
}

/// When a server opens, as a relative Discord timestamp of the given
/// instant, or `bientôt` without one.
pub open spec fn when_text_spec(seconds: Option<i64>) -> Seq<char> {
    match seconds {
        Some(t) => "<t:"@ + int_text(t as int) + ":R>"@,
        None => "bientôt"@,
    }
}

/// When a server opens, from the instant read in its reveal date.
pub fn when_text(seconds: Option<i64>) -> (r: String)
    ensures
        r@ == when_text_spec(seconds),
{
    match seconds {
        Some(t) => {
            let mut r = owned("<t:");
            push_i64(&mut r, t);
            push_str(&mut r, ":R>");
            r
        },
        None => owned("bientôt"),
    }
}

/// The instant of an optional RFC 3339 date.
pub open spec fn opt_seconds(date: Option<Seq<char>>) -> Option<i64> {
    match date {
        Some(d) => rfc3339_seconds(d),
        None => None,
    }
}

fn opt_timestamp(date: Option<&str>) -> (r: Option<i64>)
    ensures
        r == opt_seconds(opt_text(date)),
{
    match date {
        Some(d) => rfc3339_timestamp(d),
        None => None,
    }
}

/// When a server opens: a relative Discord timestamp of its reveal date,
/// `bientôt` when there is none or it cannot be read.
pub fn format_when_timestamp(ip_reveal_at: Option<&str>) -> (r: String)
    ensures
        r@ == when_text_spec(opt_seconds(opt_text(ip_reveal_at))),
{
    when_text(opt_timestamp(ip_reveal_at))
}

// ---------------------------------------------------------------------
// Events of the bus
// ---------------------------------------------------------------------

/// Kind, server id and guild of a portal event: the envelope's `event`,
/// and `server_id` and `guild_id` (a decimal number) from its `data`.
pub open spec fn portal_event_spec(env: Json) -> Option<(Seq<char>, Seq<char>, u64)> {
    match (str_field(env, "event"@), json_get(env, "data"@)) {
        (Some(event), Some(data)) => match (str_field(data, "server_id"@), str_field(data, "guild_id"@)) {
            (Some(server_id), Some(guild)) => match parse_u64_spec(guild) {
                Some(g) => Some((event, server_id, g)),
                None => None,
            },
            _ => None,
        },
        _ => None,
    }
}

/// Kind, server id and guild of a portal event already read.
pub fn portal_event(env: &Json) -> (r: Option<(String, String, u64)>)
    ensures
        r matches Some(t) ==> portal_event_spec(*env) == Some((t.0@, t.1@, t.2)),
        r is None ==> portal_event_spec(*env) is None,
{
    let event = match env.str_field("event") {
        Some(e) => e,
        None => return None,
    };
    let data = match env.get("data") {
        Some(d) => d,
        None => return None,
    };
    let server_id = match data.str_field("server_id") {
        Some(s) => s,
        None => return None,
    };
    let guild = match data.str_field("guild_id") {
        Some(g) => g,
        None => return None,
    };
    let guild_id = match parse_u64(guild.as_str()) {
        Some(g) => g,
        None => return None,
    };
    Some((owned(event.as_str()), owned(server_id.as_str()), guild_id))
}

/// The portal event that a payload carries, if it is JSON.
pub open spec fn portal_payload_spec(payload: Seq<char>) -> Option<(Seq<char>, Seq<char>, u64)> {
    match json_document(payload) {
        Some(env) => portal_event_spec(env),
        None => None,
    }
}

/// Kind, server id and guild of the event a payload carries.
pub fn parse_portal_event(payload_json: &str) -> (r: Option<(String, String, u64)>)
    ensures
        r matches Some(t) ==> portal_payload_spec(payload_json@) == Some((t.0@, t.1@, t.2)),
        r is None ==> portal_payload_spec(payload_json@) is None,
{
    match parse_json(payload_json) {
        Some(env) => portal_event(&env),
        None => None,
    }
}

/// Notice of a restart: the minutes left (at most `u16::MAX`, zero when
/// unreadable) and the restart date, from the envelope's `data`.
pub open spec fn restart_warning_spec(env: Option<Json>) -> (u16, Option<Seq<char>>) {
    match env {
        None => (0, None),
        Some(e) => match json_get(e, "data"@) {
            None => (0, None),
            Some(data) => {
                let minutes: u16 = match u64_field(data, "minutes_left"@) {
                    Some(m) => if m > 0xffff { 0xffff } else { m as u16 },
                    None => 0,
                };
                (minutes, str_field(data, "restart_at"@))
            },
        },
    }
}

/// Notice of a restart read from an envelope.
pub fn restart_warning(env: Option<&Json>) -> (r: (u16, Option<String>))
    ensures
        r.0 == restart_warning_spec(match env { Some(e) => Some(*e), None => None }).0,
        opt_string(r.1) == restart_warning_spec(match env { Some(e) => Some(*e), None => None }).1,
{
    let e = match env {
        Some(e) => e,
        None => return (0, None),
    };
    let data = match e.get("data") {
        Some(d) => d,
        None => return (0, None),
    };
    let minutes: u16 = match data.u64_field("minutes_left") {
        Some(m) => if m > 0xffff { 0xffff } else { m as u16 },
        None => 0,
    };
    let quand = match data.str_field("restart_at") {
        Some(q) => Some(owned(q.as_str())),
        None => None,
    };
    (minutes, quand)
}

/// Notice of a restart carried by a payload. An unreadable notice falls
/// back to zero minutes rather than making the announcement disappear.
pub fn parse_restart_warning(payload_json: &str) -> (r: (u16, Option<String>))
    ensures
        r.0 == restart_warning_spec(json_document(payload_json@)).0,
        opt_string(r.1) == restart_warning_spec(json_document(payload_json@)).1,
{
    let env = parse_json(payload_json);
    match &env {
        Some(e) => restart_warning(Some(e)),
        None => restart_warning(None),
    }
}

/// Channels and template of a deleted server: `text_channel_id`,
/// `voice_channel_id` (each optional) and `template_id` (required) from the
/// envelope's `data`.
pub open spec fn deleted_spec(env: Json) -> Option<(Option<Seq<char>>, Option<Seq<char>>, Seq<char>)> {
    match json_get(env, "data"@) {
        None => None,
        Some(data) => match str_field(data, "template_id"@) {
            None => None,
            Some(t) => Some((str_field(data, "text_channel_id"@), str_field(data, "voice_channel_id"@), t)),
        },
    }
}

fn owned_field(j: &Json, key: &str) -> (r: Option<String>)
    ensures
        opt_string(r) == str_field(*j, key@),
{
    match j.str_field(key) {
        Some(s) => Some(owned(s.as_str())),
        None => None,
    }
}

/// Channels and template of a deleted server, from an envelope already
/// read.
pub fn deleted_payload(env: &Json) -> (r: Option<(Option<String>, Option<String>, String)>)
    ensures
        r matches Some(t) ==> deleted_spec(*env) == Some((opt_string(t.0), opt_string(t.1), t.2@)),
        r is None ==> deleted_spec(*env) is None,
{
    let data = match env.get("data") {
        Some(d) => d,
        None => return None,
    };
    let template = match data.str_field("template_id") {
        Some(t) => owned(t.as_str()),
        None => return None,
    };
    Some((owned_field(data, "text_channel_id"), owned_field(data, "voice_channel_id"), template))
}

/// Channels and template that a deletion event carries; `None` for a
/// message sent before the API added them, or for a payload that is not
/// JSON.
pub fn parse_deleted_payload(payload_json: &str) -> (r: Option<(Option<String>, Option<String>, String)>)
    ensures
        r matches Some(t) ==> (match json_document(payload_json@) {
            Some(env) => deleted_spec(env),
            None => None,
        }) == Some((opt_string(t.0), opt_string(t.1), t.2@)),
        r is None ==> (match json_document(payload_json@) {
            Some(env) => deleted_spec(env),
            None => None,
        }) is None,
{
    match parse_json(payload_json) {
        Some(env) => deleted_payload(&env),
        None => None,
    }
}

/// Name of the server whose announcement was given up (`data.nom`), `un
/// serveur` when it is missing.
pub open spec fn abandoned_name_spec(env: Option<Json>) -> Seq<char> {
    match env {
        Some(e) => match json_get(e, "data"@) {
            Some(d) => match str_field(d, "nom"@) {
                Some(n) => n,
                None => "un serveur"@,
            },
            None => "un serveur"@,
        },
        None => "un serveur"@,
    }
}

/// Name of the server whose announcement was given up.
pub fn abandoned_server_name(env: Option<&Json>) -> (r: String)
    ensures
        r@ == abandoned_name_spec(match env { Some(e) => Some(*e), None => None }),
{
    if let Some(e) = env {
        if let Some(d) = e.get("data") {
            if let Some(n) = d.str_field("nom") {
                return owned(n.as_str());
            }
        }
    }
    owned("un serveur")
}

/// Name of the server whose announcement was abandoned, read from a
/// payload; `un serveur` when it does not say.
pub fn parse_abandoned_server_name(payload_json: &str) -> (r: String)
    ensures
        r@ == abandoned_name_spec(json_document(payload_json@)),
{
    let env = parse_json(payload_json);
    match &env {
        Some(e) => abandoned_server_name(Some(e)),
        None => abandoned_server_name(None),
    }
}

/// Alert posted in the log channel when the opening announcement of a
/// server was given up: what is missing, and how to get out of it.
pub fn abandon_alert(nom: &str) -> (r: String)
    ensures
        r@ == "⚠️ **"@ + nom@ + "** : Atrium n'a pas pu rediger l'annonce d'ouverture apres plusieurs tentatives, la reprise s'arrete.\nLes salons existent, mais **le panneau d'inscription n'a pas ete publie** : personne ne peut s'inscrire.\nVerifie la disponibilite d'Atrium et son quota, puis recree la session pour relancer l'ouverture."@,
{
    let mut r = owned("⚠️ **");
    push_str(&mut r, nom);
    push_str(&mut r, "** : Atrium n'a pas pu rediger l'annonce d'ouverture apres plusieurs tentatives, la reprise s'arrete.\nLes salons existent, mais **le panneau d'inscription n'a pas ete publie** : personne ne peut s'inscrire.\nVerifie la disponibilite d'Atrium et son quota, puis recree la session pour relancer l'ouverture.");
    r
}

// ---------------------------------------------------------------------
// Restart announcements
// ---------------------------------------------------------------------

/// Mention put before an announcement: the role followed by a space, or
/// nothing.
pub open spec fn mention_prefix(role_id: Option<u64>) -> Seq<char> {
    match role_id {
        Some(id) => role_mention(id) + " "@,
        None => Seq::empty(),
    }
}

fn push_mention(s: &mut String, role_id: Option<u64>)
    ensures
        final(s)@ == old(s)@ + mention_prefix(role_id),
{
    match role_id {
        Some(id) => {
            push_str(s, "<@&");
            push_u64(s, id);
            push_str(s, ">");
            push_str(s, " ");
        },
        None => {
            assert(old(s)@ + mention_prefix(role_id) =~= old(s)@);
        },
    }
}

/// Announcement of a restart to come.
pub open spec fn restart_text(role_id: Option<u64>, game_name: Seq<char>, minutes: u16, at: Option<i64>) -> Seq<char> {
    "🔄 "@ + mention_prefix(role_id) + "**"@ + game_name + "** "@ + "redemarre dans"@ + " **"@
        + nat_text(minutes as nat) + " minutes**"@ + match at {
        Some(t) => " (<t:"@ + int_text(t as int) + ":t>)"@,
        None => Seq::empty(),
    } + ".\nMettez-vous a l'abri et sauvegardez votre progression."@
}

/// Announcement of a restart to come, the instant of the restart already
/// read.
pub fn restart_warning_text(role_id: Option<u64>, game_name: &str, minutes_left: u16, at: Option<i64>) -> (r: String)
    ensures
        r@ == restart_text(role_id, game_name@, minutes_left, at),
{
    let mut r = owned("🔄 ");
    push_mention(&mut r, role_id);
    push_str(&mut r, "**");
    push_str(&mut r, game_name);
    push_str(&mut r, "** ");
    push_str(&mut r, "redemarre dans");
    push_str(&mut r, " **");
    push_u64(&mut r, minutes_left as u64);
    push_str(&mut r, " minutes**");
    let ghost before = r@;
    match at {
        Some(t) => {
            push_str(&mut r, " (<t:");
            push_i64(&mut r, t);
            push_str(&mut r, ":t>)");
        },
        None => {
            assert(before + Seq::<char>::empty() =~= before);
        },
    }
    push_str(&mut r, ".\nMettez-vous a l'abri et sauvegardez votre progression.");
    r
}

/// Discord announcement of a restart to come; it doubles the message sent
/// inside the game. A restart date that cannot be read is left out.
pub fn build_restart_warning_content(role_id: Option<u64>, game_name: &str, minutes_left: u16, restart_at: Option<&str>) -> (r: String)
    ensures
        r@ == restart_text(role_id, game_name@, minutes_left, opt_seconds(opt_text(restart_at))),
{
    restart_warning_text(role_id, game_name, minutes_left, opt_timestamp(restart_at))
}

/// Announcement that a server is back online.
pub open spec fn back_online_text(role_id: Option<u64>, game_name: Seq<char>) -> Seq<char> {
    "✅ "@ + mention_prefix(role_id) + "**"@ + game_name + "** "@ + "est de nouveau en ligne"@ + "."@
}

/// Announcement that a server is back online after a restart.
pub fn build_restarted_content(role_id: Option<u64>, game_name: &str) -> (r: String)
    ensures
        r@ == back_online_text(role_id, game_name@),
{
    let mut r = owned("✅ ");
    push_mention(&mut r, role_id);
    push_str(&mut r, "**");
    push_str(&mut r, game_name);
    push_str(&mut r, "** ");
    push_str(&mut r, "est de nouveau en ligne");
    push_str(&mut r, ".");
    r
}

/// A restart announcement of the bot: its mark and its own wording, so that
/// no neighbouring message is taken for one.
pub open spec fn restart_announcement(contenu: Seq<char>) -> bool {
    (has_prefix(contenu, "🔄 "@) && has_infix(contenu, "redemarre dans"@)) || (has_prefix(
        contenu,
        "✅ "@,
    ) && has_infix(contenu, "est de nouveau en ligne"@))
}

/// Recognizes a restart announcement already posted by the bot.
pub fn est_annonce_de_redemarrage(contenu: &str) -> (r: bool)
    ensures
        r == restart_announcement(contenu@),
{
    (starts_with_text(contenu, "🔄 ") && contains_text(contenu, "redemarre dans")) || (
    starts_with_text(contenu, "✅ ") && contains_text(contenu, "est de nouveau en ligne"))
}

proof fn lemma_prefix_and_infix(s: Seq<char>, a: Seq<char>, b: Seq<char>, m: Seq<char>, c: Seq<char>)
    requires
        s == a + b + m + c,
    ensures
        has_prefix(s, a),
        has_infix(s, m),
{
    assert(s.subrange(0, a.len() as int) =~= a);
    let i: int = (a.len() + b.len()) as int;
    assert(s.subrange(i, i + m.len()) =~= m);
    assert(occurs_at(s, m, i));
}

/// Both announcements that the bot posts around a restart are recognized
/// as such, so the next restart clears them.
pub proof fn restart_announcements_are_recognized(
    role_id: Option<u64>,
    game_name: Seq<char>,
    minutes: u16,
    at: Option<i64>,
)
    ensures
        restart_announcement(restart_text(role_id, game_name, minutes, at)),
        restart_announcement(back_online_text(role_id, game_name)),
{
    let tail = match at {
        Some(t) => " (<t:"@ + int_text(t as int) + ":t>)"@,
        None => Seq::empty(),
    };
    let w = restart_text(role_id, game_name, minutes, at);
    let wb = mention_prefix(role_id) + "**"@ + game_name + "** "@;
    let wc = " **"@ + nat_text(minutes as nat) + " minutes**"@ + tail
        + ".\nMettez-vous a l'abri et sauvegardez votre progression."@;
    assert(w =~= "🔄 "@ + wb + "redemarre dans"@ + wc);
    lemma_prefix_and_infix(w, "🔄 "@, wb, "redemarre dans"@, wc);
    let o = back_online_text(role_id, game_name);
    assert(o =~= "✅ "@ + wb + "est de nouveau en ligne"@ + "."@);
    lemma_prefix_and_infix(o, "✅ "@, wb, "est de nouveau en ligne"@, "."@);
}

// ---------------------------------------------------------------------
// Repair report
// ---------------------------------------------------------------------

/// What the repair of a session found and repaired.
#[derive(Debug, PartialEq, Eq, Structural)]
pub struct RapportResync {
    /// Members registered with the API.
    pub inscrits: usize,
    /// Registered members who lacked the role and were given it.
    pub roles_poses: usize,
    /// Registered members not found in the guild.
    pub absents: usize,
    /// The session role had gone and was created again.
    pub role_recree: bool,
    /// The registration panel was missing and was posted again.
    pub panneau_republie: bool,
}

impl Default for RapportResync {
    fn default() -> (r: Self)
        ensures
            r == (RapportResync {
                inscrits: 0,
                roles_poses: 0,
                absents: 0,
                role_recree: false,
                panneau_republie: false,
            }),
    {
        RapportResync { inscrits: 0, roles_poses: 0, absents: 0, role_recree: false, panneau_republie: false }
    }
}

/// Nothing was repaired (members found missing change nothing).
pub open spec fn nothing_to_do(r: RapportResync) -> bool {
    r.roles_poses == 0 && !r.role_recree && !r.panneau_republie
}

/// Line of the report for the role created again.
pub open spec fn line_role(r: RapportResync) -> Seq<char> {
    if r.role_recree { "\n• Role de session recree."@ } else { Seq::empty() }
}

/// Line of the report for the members given the role back.
pub open spec fn line_given(r: RapportResync) -> Seq<char> {
    if r.roles_poses > 0 {
        "\n• Role rendu a "@ + nat_text(r.roles_poses as nat) + " membre(s)."@
    } else {
        Seq::empty()
    }
}

/// Line of the report for the panel posted again.
pub open spec fn line_panel(r: RapportResync) -> Seq<char> {
    if r.panneau_republie { "\n• Panneau d'inscription republie."@ } else { Seq::empty() }
}

/// Line of the report for the members not found.
pub open spec fn line_absent(r: RapportResync) -> Seq<char> {
    if r.absents > 0 {
        "\n• "@ + nat_text(r.absents as nat) + " inscrit(s) introuvable(s) dans le serveur (partis ?)."@
    } else {
        Seq::empty()
    }
}

/// The lines of the report after its heading, for what was done.
pub open spec fn report_lines(r: RapportResync) -> Seq<char> {
    line_role(r) + line_given(r) + line_panel(r) + line_absent(r)
}

fn push_line_role(s: &mut String, r: &RapportResync)
    ensures
        final(s)@ == old(s)@ + line_role(*r),
{
    if r.role_recree {
        push_str(s, "\n• Role de session recree.");
    } else {
        assert(old(s)@ + Seq::<char>::empty() =~= old(s)@);
    }
}

fn push_line_given(s: &mut String, r: &RapportResync)
    ensures
        final(s)@ == old(s)@ + line_given(*r),
{
    if r.roles_poses > 0 {
        push_str(s, "\n• Role rendu a ");
        push_u64(s, r.roles_poses as u64);
        push_str(s, " membre(s).");
    } else {
        assert(old(s)@ + Seq::<char>::empty() =~= old(s)@);
    }
}

fn push_line_panel(s: &mut String, r: &RapportResync)
    ensures
        final(s)@ == old(s)@ + line_panel(*r),
{
    if r.panneau_republie {
        push_str(s, "\n• Panneau d'inscription republie.");
    } else {
        assert(old(s)@ + Seq::<char>::empty() =~= old(s)@);
    }
}

fn push_line_absent(s: &mut String, r: &RapportResync)
    ensures
        final(s)@ == old(s)@ + line_absent(*r),
{
    if r.absents > 0 {
        push_str(s, "\n• ");
        push_u64(s, r.absents as u64);
        push_str(s, " inscrit(s) introuvable(s) dans le serveur (partis ?).");
    } else {
        assert(old(s)@ + Seq::<char>::empty() =~= old(s)@);
    }
}

/// The report as the administrator reads it.
pub open spec fn report_text(r: RapportResync) -> Seq<char> {
    if nothing_to_do(r) {
        "✅ Rien a reparer. "@ + nat_text(r.inscrits as nat) + " inscrit(s), role et panneau en place."@
    } else {
        "✅ Session resynchronisee ("@ + nat_text(r.inscrits as nat) + " inscrits)."@ + report_lines(r)
    }
}

/// What became of one registered member during the repair of a session.
#[derive(Debug, PartialEq, Eq, Structural, Clone, Copy)]
pub enum MemberRepair {
    /// The member's id does not read, or the member is not in the guild.
    Missing,
    /// The member already held the session role.
    AlreadyHeld,
    /// The member was given the session role.
    Given,
    /// The role could not be given to the member.
    NotGiven,
}

/// The role of the guild with this name, if any: the first one listed.
pub fn role_named(roles: &[(u64, String)], name: &str) -> (r: Option<u64>)
    ensures
        r matches Some(id) ==> exists|i: int|
            0 <= i < roles@.len() && roles@[i].0 == id && roles@[i].1@ == name@
                && forall|j: int| 0 <= j < i ==> (#[trigger] roles@[j]).1@ != name@,
        r is None ==> forall|i: int| 0 <= i < roles@.len() ==> (#[trigger] roles@[i]).1@ != name@,
{
    let mut i: usize = 0;
    while i < roles.len()
        invariant
            i <= roles@.len(),
            forall|j: int| 0 <= j < i ==> (#[trigger] roles@[j]).1@ != name@,
        decreases roles@.len() - i,
    {
        if crate::text::same_text(roles[i].1.as_str(), name) {
            return Some(roles[i].0);
        }
        i = i + 1;
    }
    None
}

impl RapportResync {
    /// Counts what became of one registered member: a member given the role
    /// counts as repaired, one missing or refused the role as absent.
    pub fn note_member(&mut self, m: MemberRepair)
        requires
            old(self).roles_poses < usize::MAX,
            old(self).absents < usize::MAX,
        ensures
            final(self).inscrits == old(self).inscrits,
            final(self).role_recree == old(self).role_recree,
            final(self).panneau_republie == old(self).panneau_republie,
            final(self).roles_poses == old(self).roles_poses + if m == MemberRepair::Given { 1int } else { 0int },
            final(self).absents == old(self).absents + if m == MemberRepair::Missing || m == MemberRepair::NotGiven {
                1int
            } else {
                0int
            },
    {
        match m {
            MemberRepair::Given => self.roles_poses = self.roles_poses + 1,
            MemberRepair::Missing | MemberRepair::NotGiven => self.absents = self.absents + 1,
            MemberRepair::AlreadyHeld => {},
        }
    }

    /// Nothing moved: everything was already in place.
    pub fn rien_a_faire(&self) -> (r: bool)
        ensures
            r == nothing_to_do(*self),
    {
        self.roles_poses == 0 && !self.role_recree && !self.panneau_republie
    }

    /// The report, saying what was done.
    pub fn resume(&self) -> (r: String)
        ensures
            r@ == report_text(*self),
    {
        if self.rien_a_faire() {
            let mut r = owned("✅ Rien a reparer. ");
            push_u64(&mut r, self.inscrits as u64);
            push_str(&mut r, " inscrit(s), role et panneau en place.");
            return r;
        }
        let mut r = owned("✅ Session resynchronisee (");
        push_u64(&mut r, self.inscrits as u64);
        push_str(&mut r, " inscrits).");
        let ghost head = r@;
        push_line_role(&mut r, self);
        push_line_given(&mut r, self);
        push_line_panel(&mut r, self);
        push_line_absent(&mut r, self);
        assert(r@ =~= head + report_lines(*self));
        r
    }
}

// ---------------------------------------------------------------------
// Clicks on the portal's buttons
// ---------------------------------------------------------------------

/// What a click on a button of the portal asks for.
pub enum PortalClick {
    RevealIp(String),
    Register(String),
    Unregister(String),
}

/// A click as plain values: 0 to reveal, 1 to register, 2 to unregister,
/// and the server id.
pub open spec fn click_view(c: PortalClick) -> (int, Seq<char>) {
    match c {
        PortalClick::RevealIp(s) => (0, s@),
        PortalClick::Register(s) => (1, s@),
        PortalClick::Unregister(s) => (2, s@),
    }
}

/// What a click asks for, by the prefix of the button's custom id (the
/// reveal button first), and the server id after it.
pub open spec fn click_spec(cid: Seq<char>) -> Option<(int, Seq<char>)> {
    if has_prefix(cid, REVEAL_IP_PREFIX@) {
        Some((0, cid.skip(REVEAL_IP_PREFIX@.len() as int)))
    } else if has_prefix(cid, REGISTER_PREFIX@) {
        Some((1, cid.skip(REGISTER_PREFIX@.len() as int)))
    } else if has_prefix(cid, UNREGISTER_PREFIX@) {
        Some((2, cid.skip(UNREGISTER_PREFIX@.len() as int)))
    } else {
        None
    }
}

fn after_prefix(cid: &str, prefix: &str) -> (r: String)
    requires
        has_prefix(cid@, prefix@),
    ensures
        r@ == cid@.skip(prefix@.len() as int),
{
    let v = chars_of(cid);
    let n = chars_of(prefix).len();
    let r = text_of_range(&v, n, v.len());
    assert(r@ =~= cid@.skip(prefix@.len() as int));
    r
}

/// What a click on a button of the portal asks for.
pub fn portal_click(custom_id: &str) -> (r: Option<PortalClick>)
    ensures
        r matches Some(c) ==> click_spec(custom_id@) == Some(click_view(c)),
        r is None ==> click_spec(custom_id@) is None,
{
    if starts_with_text(custom_id, REVEAL_IP_PREFIX) {
        Some(PortalClick::RevealIp(after_prefix(custom_id, REVEAL_IP_PREFIX)))
    } else if starts_with_text(custom_id, REGISTER_PREFIX) {
        Some(PortalClick::Register(after_prefix(custom_id, REGISTER_PREFIX)))
    } else if starts_with_text(custom_id, UNREGISTER_PREFIX) {
        Some(PortalClick::Unregister(after_prefix(custom_id, UNREGISTER_PREFIX)))
    } else {
        None
    }
}

/// Private acknowledgement when the panel could not be rebuilt.
pub fn registration_fallback_ack(is_register: bool) -> (r: String)
    ensures
        r@ == "✅ "@ + (if is_register { "Inscription enregistrée"@ } else { "Désinscription enregistrée"@ }) + "."@,
{
    let mut s = owned("✅ ");
    push_str(&mut s, format_registration_ack_content(is_register));
    push_str(&mut s, ".");
    s
}

/// Name of the game of a session: its template's, `Jeu` without one.
pub fn game_name_of(template: Option<&GameTemplate>) -> (r: String)
    ensures
        r@ == match template {
            Some(t) => t.name@,
            None => "Jeu"@,
        },
{
    match template {
        Some(t) => owned(t.name.as_str()),
        None => owned("Jeu"),
    }
}

/// The reveal of the address is asked by the owner of the server;
/// otherwise the refusal to reply.
pub fn reveal_allowed(owner_user_id: &str, user_id: &str) -> (r: Result<(), &'static str>)
    ensures
        owner_user_id@ == user_id@ ==> r is Ok,
        owner_user_id@ != user_id@ ==> (r matches Err(m) && m@ == "⛔ Seul le propriétaire du serveur peut révéler son adresse."@),
{
    if crate::text::same_text(owner_user_id, user_id) {
        Ok(())
    } else {
        Err(format_owner_only_reveal_error())
    }
}

// ---------------------------------------------------------------------
// Panel of a session
// ---------------------------------------------------------------------

/// Buttons of the registration panel: register, unregister, and reveal the
/// address while it is hidden.
pub open spec fn panel_buttons(server_id: Seq<char>, ip_revealed: bool) -> Seq<(Seq<char>, Seq<char>, Option<char>, ButtonStyle)> {
    seq![
        (REGISTER_PREFIX@ + server_id, "Je m'inscris"@, Some('✅'), ButtonStyle::Success),
        (UNREGISTER_PREFIX@ + server_id, "Me désinscrire"@, Some('❌'), ButtonStyle::Secondary),
    ] + if ip_revealed {
        Seq::empty()
    } else {
        seq![(REVEAL_IP_PREFIX@ + server_id, "Révéler l'adresse IP"@, Some('🔓'), ButtonStyle::Danger)]
    }
}

/// Each button of a session's panel, once clicked, names its action
/// (register, unregister, reveal the address, in the panel's order) and the
/// very session the panel was made for, whatever the session's id.
pub proof fn panel_buttons_name_their_session(server_id: Seq<char>, ip_revealed: bool)
    ensures
        forall|i: int| 0 <= i < panel_buttons(server_id, ip_revealed).len() ==> click_spec(
            #[trigger] panel_buttons(server_id, ip_revealed)[i].0,
        ) == Some((if i == 0 { 1int } else if i == 1 { 2int } else { 0int }, server_id)),
{
    reveal_strlit("gp_register:");
    reveal_strlit("gp_unregister:");
    reveal_strlit("gp_reveal_ip:");
    let reg = REGISTER_PREFIX@;
    let unreg = UNREGISTER_PREFIX@;
    let rev = REVEAL_IP_PREFIX@;
    assert(reg =~= seq!['g', 'p', '_', 'r', 'e', 'g', 'i', 's', 't', 'e', 'r', ':']);
    assert(unreg =~= seq!['g', 'p', '_', 'u', 'n', 'r', 'e', 'g', 'i', 's', 't', 'e', 'r', ':']);
    assert(rev =~= seq!['g', 'p', '_', 'r', 'e', 'v', 'e', 'a', 'l', '_', 'i', 'p', ':']);
    let a = reg + server_id;
    let b = unreg + server_id;
    let c = rev + server_id;
    assert(a.subrange(0, reg.len() as int) =~= reg);
    assert(b.subrange(0, unreg.len() as int) =~= unreg);
    assert(c.subrange(0, rev.len() as int) =~= rev);
    assert(a.skip(reg.len() as int) =~= server_id);
    assert(b.skip(unreg.len() as int) =~= server_id);
    assert(c.skip(rev.len() as int) =~= server_id);
    assert(!has_prefix(a, rev)) by {
        if has_prefix(a, rev) {
            assert(a.subrange(0, rev.len() as int)[5] == rev[5]);
        }
    }
    assert(!has_prefix(b, rev)) by {
        if has_prefix(b, rev) {
            assert(b.subrange(0, rev.len() as int)[3] == rev[3]);
        }
    }
    assert(!has_prefix(b, reg)) by {
        if has_prefix(b, reg) {
            assert(b.subrange(0, reg.len() as int)[3] == reg[3]);
        }
    }
    assert(click_spec(a) == Some((1int, server_id)));
    assert(click_spec(b) == Some((2int, server_id)));
    assert(click_spec(c) == Some((0int, server_id)));
}

fn prefixed(prefix: &str, server_id: &str) -> (r: String)
    ensures
        r@ == prefix@ + server_id@,
{
    let mut s = owned(prefix);
    push_str(&mut s, server_id);
    s
}

/// The one row of buttons of the registration panel.
pub fn panel_rows(server_id: &str, ip_revealed: bool) -> (r: Vec<Button>)
    ensures
        buttons_view(r@) == panel_buttons(server_id@, ip_revealed),
{
    let mut v: Vec<Button> = Vec::new();
    v.push(Button {
        custom_id: prefixed(REGISTER_PREFIX, server_id),
        label: owned("Je m'inscris"),
        emoji: Some('✅'),
        style: ButtonStyle::Success,
    });
    v.push(Button {
        custom_id: prefixed(UNREGISTER_PREFIX, server_id),
        label: owned("Me désinscrire"),
        emoji: Some('❌'),
        style: ButtonStyle::Secondary,
    });
    if !ip_revealed {
        v.push(Button {
            custom_id: prefixed(REVEAL_IP_PREFIX, server_id),
            label: owned("Révéler l'adresse IP"),
            emoji: Some('🔓'),
            style: ButtonStyle::Danger,
        });
    }
    assert(buttons_view(v@) =~= panel_buttons(server_id@, ip_revealed));
    v
}

/// Longest start of `s` that takes at most `n` bytes in UTF-8.
pub open spec fn prefix_within(s: Seq<char>, n: nat) -> Seq<char>
    decreases s.len(),
{
    if s.len() == 0 || utf8_width(s[0]) > n {
        Seq::empty()
    } else {
        seq![s[0]] + prefix_within(s.drop_first(), (n - utf8_width(s[0])) as nat)
    }
}

/// Byte `n` of `s` is the end of a character (or past its end): slicing
/// the first `n` bytes is possible.
pub open spec fn char_boundary(s: Seq<char>, n: nat) -> bool {
    utf8_len(s) <= n || utf8_len(prefix_within(s, n)) == n
}

fn prefix_within_exec(s: &Vec<char>, n: u128) -> (k: usize)
    ensures
        k <= s@.len(),
        s@.take(k as int) == prefix_within(s@, n as nat),
{
    let mut used: u128 = 0;
    let mut i: usize = 0;
    assert(s@.skip(0) =~= s@);
    assert(s@.take(0) + prefix_within(s@, n as nat) =~= prefix_within(s@, n as nat));
    while i < s.len()
        invariant
            i <= s@.len(),
            used <= n,
            prefix_within(s@, n as nat) == s@.take(i as int) + prefix_within(s@.skip(i as int), (n - used) as nat),
        decreases s@.len() - i,
    {
        let ghost rest = s@.skip(i as int);
        assert(rest[0] == s@[i as int]);
        assert(rest.drop_first() =~= s@.skip(i + 1));
        let c = s[i];
        let u = c as u32;
        let w: u128 = if u < 0x80 { 1 } else if u < 0x800 { 2 } else if u < 0x10000 { 3 } else { 4 };
        assert(w == utf8_width(c));
        if w > n - used {
            assert(s@.take(i as int) + Seq::<char>::empty() =~= s@.take(i as int));
            return i;
        }
        used = used + w;
        assert(s@.take(i + 1) =~= s@.take(i as int) + seq![c]);
        i = i + 1;
    }
    assert(s@.skip(i as int) =~= Seq::<char>::empty());
    assert(s@.take(i as int) + Seq::<char>::empty() =~= s@.take(i as int));
    i
}

/// Registered members, as mentions joined by commas.
pub open spec fn registered_text(inscrits: Seq<Seq<char>>) -> Seq<char> {
    if inscrits.len() == 0 {
        "_Personne pour l'instant — sois le premier !_"@
    } else {
        crate::text::joined(Seq::new(inscrits.len(), |i: int| "<@"@ + inscrits[i] + ">"@), ", "@)
    }
}

/// Where to connect, when both the host (not blank) and the port are known.
pub open spec fn address_of(public_host: Option<Seq<char>>, host_port: Option<u16>) -> Option<(Seq<char>, u16)> {
    match (public_host, host_port) {
        (Some(h), Some(p)) => if trim(h).len() > 0 { Some((h, p)) } else { None },
        _ => None,
    }
}

/// What the panel says of the address.
pub open spec fn address_text(
    ip_revealed: bool,
    public_host: Option<Seq<char>>,
    host_port: Option<u16>,
    ip_reveal_at: Option<Seq<char>>,
    reveal_seconds: Option<i64>,
) -> Seq<char> {
    if ip_revealed {
        match address_of(public_host, host_port) {
            Some((h, p)) => "**Serveur ouvert !** `"@ + h + ":"@ + nat_text(p as nat) + "`"@,
            None => "**Adresse indisponible : configuration incomplete.**"@,
        }
    } else {
        match ip_reveal_at {
            Some(d) => match reveal_seconds {
                Some(t) => "🔒 Masquee — revelee le <t:"@ + int_text(t as int) + ":F> (<t:"@ + int_text(t as int)
                    + ":R>)"@,
                None => "🔒 Masquee — revelee le **"@ + prefix_within(d, 10) + "**"@,
            },
            None => "🔒 Masquee"@,
        }
    }
}

fn registered_of(inscrits: &[String]) -> (r: String)
    ensures
        r@ == registered_text(views(inscrits@)),
{
    if inscrits.len() == 0 {
        return owned("_Personne pour l'instant — sois le premier !_");
    }
    let ghost want = Seq::new(inscrits@.len(), |i: int| "<@"@ + views(inscrits@)[i] + ">"@);
    let mut parts: Vec<String> = Vec::new();
    let mut i: usize = 0;
    while i < inscrits.len()
        invariant
            i <= inscrits@.len(),
            want == Seq::new(inscrits@.len(), |i: int| "<@"@ + views(inscrits@)[i] + ">"@),
            views(parts@) == want.take(i as int),
        decreases inscrits@.len() - i,
    {
        let mut m = owned("<@");
        push_str(&mut m, inscrits[i].as_str());
        push_str(&mut m, ">");
        let ghost before = views(parts@);
        let ghost mv = m@;
        parts.push(m);
        assert(views(parts@) =~= before.push(mv));
        assert(views(parts@) =~= want.take(i + 1));
        i = i + 1;
    }
    assert(want.take(inscrits@.len() as int) =~= want);
    crate::text::join_texts(parts.as_slice(), ", ")
}

fn address_of_exec(public_host: Option<&str>, host_port: Option<u16>) -> (r: Option<(String, u16)>)
    ensures
        r matches Some(t) ==> address_of(opt_text(public_host), host_port) == Some((t.0@, t.1)),
        r is None ==> address_of(opt_text(public_host), host_port) is None,
{
    match (public_host, host_port) {
        (Some(h), Some(p)) => {
            let t = crate::text::trimmed(h);
            if t.as_str().unicode_len() > 0 {
                Some((owned(h), p))
            } else {
                None
            }
        },
        _ => None,
    }
}

fn address_line(
    ip_revealed: bool,
    public_host: Option<&str>,
    host_port: Option<u16>,
    ip_reveal_at: Option<&str>,
    reveal_seconds: Option<i64>,
) -> (r: String)
    requires
        ip_reveal_at matches Some(d) ==> char_boundary(d@, 10),
    ensures
        r@ == address_text(ip_revealed, opt_text(public_host), host_port, opt_text(ip_reveal_at), reveal_seconds),
{
    if ip_revealed {
        match address_of_exec(public_host, host_port) {
            Some((h, p)) => {
                let mut s = owned("**Serveur ouvert !** `");
                push_str(&mut s, h.as_str());
                push_str(&mut s, ":");
                push_u64(&mut s, p as u64);
                push_str(&mut s, "`");
                s
            },
            None => owned("**Adresse indisponible : configuration incomplete.**"),
        }
    } else {
        match ip_reveal_at {
            Some(d) => match reveal_seconds {
                Some(t) => {
                    let mut s = owned("🔒 Masquee — revelee le <t:");
                    push_i64(&mut s, t);
                    push_str(&mut s, ":F> (<t:");
                    push_i64(&mut s, t);
                    push_str(&mut s, ":R>)");
                    s
                },
                None => {
                    let v = chars_of(d);
                    let k = prefix_within_exec(&v, 10);
                    let head = text_of_range(&v, 0, k);
                    assert(head@ =~= v@.take(k as int));
                    let mut s = owned("🔒 Masquee — revelee le **");
                    push_str(&mut s, head.as_str());
                    push_str(&mut s, "**");
                    s
                },
            },
            None => owned("🔒 Masquee"),
        }
    }
}

/// The registration panel of a session, the reveal date already read
/// (`reveal_seconds`).
pub fn panel_embed(
    game_name: &str,
    server_name: &str,
    inscrits: &[String],
    ip_reveal_at: Option<&str>,
    reveal_seconds: Option<i64>,
    ip_revealed: bool,
    public_host: Option<&str>,
    host_port: Option<u16>,
) -> (r: Embed)
    requires
        ip_reveal_at matches Some(d) ==> char_boundary(d@, 10),
    ensures
        opt_string(r.title) == Some("🎮 "@ + game_name@ + " — "@ + server_name@),
        opt_string(r.description) == Some("Un serveur de jeu est en preparation. Inscris-toi pour etre prevenu a l'ouverture !"@),
        fields_view(r.fields@) == seq![
            ("Inscrits ("@ + nat_text(inscrits@.len()) + ")"@, registered_text(views(inscrits@)), false),
            ("Adresse (IP)"@, address_text(ip_revealed, opt_text(public_host), host_port, opt_text(ip_reveal_at), reveal_seconds), false),
            ("Réglages"@, "Tape `/game parametres` pour voir tous les réglages du serveur (réponse privée)."@, false),
        ],
        r.color == Some(0x5865f2u32),
        opt_string(r.footer) == Some("Game Portal | Nexus"@),
        r.timestamp,
        r.image is None,
        r.thumbnail is None,
{
    let mut title = owned("🎮 ");
    push_str(&mut title, game_name);
    push_str(&mut title, " — ");
    push_str(&mut title, server_name);
    let mut count = owned("Inscrits (");
    push_u64(&mut count, inscrits.len() as u64);
    push_str(&mut count, ")");
    let e = Embed::new().title(title).description(owned("Un serveur de jeu est en preparation. Inscris-toi pour etre prevenu a l'ouverture !"));
    let e = e.field(count, registered_of(inscrits), false);
    let e = e.field(owned("Adresse (IP)"), address_line(ip_revealed, public_host, host_port, ip_reveal_at, reveal_seconds), false);
    let e = e.field(owned("Réglages"), owned("Tape `/game parametres` pour voir tous les réglages du serveur (réponse privée)."), false);
    let e = e.color(0x5865f2).footer(owned("Game Portal | Nexus")).timestamp_now();
    assert(fields_view(e.fields@) =~= seq![
        ("Inscrits ("@ + nat_text(inscrits@.len()) + ")"@, registered_text(views(inscrits@)), false),
        ("Adresse (IP)"@, address_text(ip_revealed, opt_text(public_host), host_port, opt_text(ip_reveal_at), reveal_seconds), false),
        ("Réglages"@, "Tape `/game parametres` pour voir tous les réglages du serveur (réponse privée)."@, false),
    ]);
    e
}

/// The registration panel of a session (the reveal date, when readable, is
/// shown as a Discord timestamp, else its first ten bytes).
pub fn build_panel_embed(
    game_name: &str,
    server_name: &str,
    inscrits: &[String],
    ip_reveal_at: Option<&str>,
    ip_revealed: bool,
    public_host: Option<&str>,
    host_port: Option<u16>,
) -> (r: Embed)
    requires
        ip_reveal_at matches Some(d) ==> char_boundary(d@, 10),
    ensures
        opt_string(r.title) == Some("🎮 "@ + game_name@ + " — "@ + server_name@),
        fields_view(r.fields@) == seq![
            ("Inscrits ("@ + nat_text(inscrits@.len()) + ")"@, registered_text(views(inscrits@)), false),
            ("Adresse (IP)"@, address_text(ip_revealed, opt_text(public_host), host_port, opt_text(ip_reveal_at),
                opt_seconds(opt_text(ip_reveal_at))), false),
            ("Réglages"@, "Tape `/game parametres` pour voir tous les réglages du serveur (réponse privée)."@, false),
        ],
        r.color == Some(0x5865f2u32),
        opt_string(r.footer) == Some("Game Portal | Nexus"@),
        r.timestamp,
        r.image is None,
{
    let seconds = if ip_revealed { None } else { opt_timestamp(ip_reveal_at) };
    let e = panel_embed(game_name, server_name, inscrits, ip_reveal_at, seconds, ip_revealed, public_host, host_port);
    assert(address_text(ip_revealed, opt_text(public_host), host_port, opt_text(ip_reveal_at), seconds)
        == address_text(ip_revealed, opt_text(public_host), host_port, opt_text(ip_reveal_at), opt_seconds(opt_text(ip_reveal_at))));
    e
}

/// The panel of the registration channel: never the address, even once it
/// is revealed in the private channel; with the session's cover.
pub fn build_public_panel_embed(
    game_name: &str,
    server_name: &str,
    inscrits: &[String],
    ip_reveal_at: Option<&str>,
    ip_revealed: bool,
    cover_url: Option<&str>,
) -> (r: Embed)
    requires
        ip_reveal_at matches Some(d) ==> char_boundary(d@, 10),
    ensures
        opt_string(r.title) == Some("🎮 "@ + game_name@ + " — "@ + server_name@),
        fields_view(r.fields@) == seq![
            ("Inscrits ("@ + nat_text(inscrits@.len()) + ")"@, registered_text(views(inscrits@)), false),
            ("Adresse (IP)"@, address_text(ip_revealed, None, None, opt_text(ip_reveal_at),
                opt_seconds(opt_text(ip_reveal_at))), false),
            ("Réglages"@, "Tape `/game parametres` pour voir tous les réglages du serveur (réponse privée)."@, false),
        ],
        opt_string(r.image) == opt_text(cover_url),
        r.color == Some(0x5865f2u32),
        r.timestamp,
{
    let e = build_panel_embed(game_name, server_name, inscrits, ip_reveal_at, ip_revealed, None, None);
    match cover_url {
        Some(u) => e.image(owned(u)),
        None => e,
    }
}

/// Public announcement that a session opens soon.
pub fn build_opening_soon_embed(game_name: &str, minutes: i64) -> (r: Embed)
    ensures
        opt_string(r.title) == Some("⏳ "@ + game_name@ + " ouvre bientôt !"@),
        opt_string(r.description) == Some("Le serveur démarre. L'adresse de connexion sera révélée dans le **salon privé des inscrits** dans **"@
            + int_text(minutes as int) + " minute(s)**.\n\nPas encore inscrit ? Clique sur **Je m'inscris** ci-dessus."@),
        r.color == Some(0x5865f2u32),
        opt_string(r.footer) == Some("Game Portal | Nexus"@),
        r.timestamp,
        r.fields@.len() == 0,
        r.image is None,
        r.thumbnail is None,
{
    let mut title = owned("⏳ ");
    push_str(&mut title, game_name);
    push_str(&mut title, " ouvre bientôt !");
    let mut d = owned("Le serveur démarre. L'adresse de connexion sera révélée dans le **salon privé des inscrits** dans **");
    push_i64(&mut d, minutes);
    push_str(&mut d, " minute(s)**.\n\nPas encore inscrit ? Clique sur **Je m'inscris** ci-dessus.");
    Embed::new().title(title).description(d).color(0x5865f2).footer(owned("Game Portal | Nexus")).timestamp_now()
}

/// The card posted in the private channel once the address is revealed.
pub fn build_private_reveal_card(
    game_name: &str,
    server_name: &str,
    public_host: Option<&str>,
    host_port: Option<u16>,
    cover_url: Option<&str>,
) -> (r: Embed)
    ensures
        opt_string(r.title) == Some("🎮 "@ + game_name@ + " — "@ + server_name@),
        opt_string(r.description) == Some("🔓 **Serveur ouvert**\nConnexion : "@ + match address_of(opt_text(public_host), host_port) {
            Some((h, p)) => "`"@ + h + ":"@ + nat_text(p as nat) + "`"@,
            None => "_Adresse indisponible, contacte le propriétaire._"@,
        } + "\n\nTape `/game parametres` ici pour voir tous les réglages (mot de passe inclus)."@),
        r.color == Some(0x5865f2u32),
        opt_string(r.footer) == Some("Game Portal | Accès privé"@),
        r.timestamp,
        opt_string(r.image) == opt_text(cover_url),
        r.fields@.len() == 0,
{
    let mut title = owned("🎮 ");
    push_str(&mut title, game_name);
    push_str(&mut title, " — ");
    push_str(&mut title, server_name);
    let mut d = owned("🔓 **Serveur ouvert**\nConnexion : ");
    match address_of_exec(public_host, host_port) {
        Some((h, p)) => {
            push_str(&mut d, "`");
            push_str(&mut d, h.as_str());
            push_str(&mut d, ":");
            push_u64(&mut d, p as u64);
            push_str(&mut d, "`");
        },
        None => push_str(&mut d, "_Adresse indisponible, contacte le propriétaire._"),
    }
    push_str(&mut d, "\n\nTape `/game parametres` ici pour voir tous les réglages (mot de passe inclus).");
    let e = Embed::new().title(title).description(d).color(0x5865f2).footer(owned("Game Portal | Accès privé")).timestamp_now();
    match cover_url {
        Some(u) => e.image(owned(u)),
        None => e,
    }
}

// ---------------------------------------------------------------------
// Settings card
// ---------------------------------------------------------------------

/// Footer of the settings embeds.
pub const OPTIONS_FOOTER: &'static str = "Game Portal | Paramètres";

/// The blocks of the settings card: at least one (saying there is no
/// setting), at most ten (Discord's limit per message).
pub open spec fn option_blocks(options: Seq<Seq<char>>) -> Seq<Seq<char>> {
    let c = chunks_of(options);
    let c2 = if c.len() == 0 { seq!["_Aucune option publique configurée._"@] } else { c };
    if c2.len() <= 10 { c2 } else { c2.take(10) }
}

/// Title of the `i`-th embed of the card.
pub open spec fn option_title(i: int, game_name: Seq<char>, server_name: Seq<char>) -> Seq<char> {
    if i == 0 {
        "⚙️ Paramètres — "@ + game_name + " · "@ + server_name
    } else {
        "⚙️ Paramètres (suite)"@
    }
}

/// An embed of the card has the expected title, block, colors and footer;
/// only the first has a description.
pub open spec fn option_embed_ok(e: Embed, i: int, game_name: Seq<char>, server_name: Seq<char>, block: Seq<char>) -> bool {
    &&& opt_string(e.title) == Some(option_title(i, game_name, server_name))
    &&& fields_view(e.fields@) == seq![("Options de la partie"@, block, false)]
    &&& e.color == Some(0x2ecc71u32)
    &&& opt_string(e.footer) == Some(OPTIONS_FOOTER@)
    &&& opt_string(e.description) == if i == 0 { Some("Réglages actuels de ce serveur."@) } else { None }
}

/// The settings card: one embed per block of settings.
pub fn build_options_embeds(game_name: &str, server_name: &str, options: &[String]) -> (r: Vec<Embed>)
    ensures
        r@.len() == option_blocks(views(options@)).len(),
        forall|i: int| 0 <= i < r@.len() ==> option_embed_ok(#[trigger] r@[i], i, game_name@, server_name@, option_blocks(views(options@))[i]),
{
    let mut chunks = chunk_options(options);
    if chunks.len() == 0 {
        chunks.push(owned("_Aucune option publique configurée._"));
        assert(views(chunks@) =~= seq!["_Aucune option publique configurée._"@]);
    }
    let ghost c2 = views(chunks@);
    let n = if chunks.len() <= 10 { chunks.len() } else { 10 };
    let ghost blocks = option_blocks(views(options@));
    assert(blocks =~= if c2.len() <= 10 { c2 } else { c2.take(10) });
    let mut out: Vec<Embed> = Vec::new();
    let mut i: usize = 0;
    while i < n
        invariant
            n <= chunks@.len(),
            n == blocks.len(),
            c2 == views(chunks@),
            forall|j: int| 0 <= j < n ==> blocks[j] == c2[j],
            i <= n,
            out@.len() == i,
            forall|j: int| 0 <= j < i ==> option_embed_ok(#[trigger] out@[j], j, game_name@, server_name@, blocks[j]),
        decreases n - i,
    {
        let title = if i == 0 {
            let mut t = owned("⚙️ Paramètres — ");
            push_str(&mut t, game_name);
            push_str(&mut t, " · ");
            push_str(&mut t, server_name);
            t
        } else {
            owned("⚙️ Paramètres (suite)")
        };
        let block = owned(chunks[i].as_str());
        assert(block@ == c2[i as int]);
        let mut e = Embed::new().title(title).field(owned("Options de la partie"), block, false).color(0x2ecc71).footer(owned(OPTIONS_FOOTER));
        if i == 0 {
            e = e.description(owned("Réglages actuels de ce serveur."));
        }
        assert(fields_view(e.fields@) =~= seq![("Options de la partie"@, blocks[i as int], false)]);
        out.push(e);
        i = i + 1;
    }
    out
}

/// The settings card of a server: with the password in the private channel
/// of the registered members, without it anywhere else.
pub fn build_options_embeds_for_server(
    server: &GameServer,
    template: Option<&GameTemplate>,
    config: &GuildConfig,
    is_private: bool,
) -> (r: Vec<Embed>)
    ensures
        r@.len() == option_blocks(crate::reglages::card_lines(config@, match template {
            Some(t) => t.config_schema@,
            None => Seq::empty(),
        }, is_private)).len(),
        forall|i: int| 0 <= i < r@.len() ==> option_embed_ok(#[trigger] r@[i], i, match template {
            Some(t) => t.name@,
            None => "Jeu"@,
        }, server.name@, option_blocks(crate::reglages::card_lines(config@, match template {
            Some(t) => t.config_schema@,
            None => Seq::empty(),
        }, is_private))[i]),
{
    let game_name = game_name_of(template);
    let empty: Vec<crate::api_client::TemplateField> = Vec::new();
    let schema = match template {
        Some(t) => t.config_schema.as_slice(),
        None => empty.as_slice(),
    };
    let options = if is_private {
        crate::reglages::public_game_options(config, schema)
    } else {
        crate::reglages::registration_options(config, schema)
    };
    build_options_embeds(game_name.as_str(), server.name.as_str(), options.as_slice())
}

} // verus!
