//! Emojis of the game panels: how a configured emoji is read, the key of a
//! reaction, and which game a reaction designates.

use vstd::prelude::*;
use vstd::string::*;

use crate::api_client::Game;
use crate::text::{
    chars_of, find_chars_from, find_first, find_from, has_prefix, lemma_find_from,
    lemma_split_on_len, nat_text, occurs_at, opt_string, owned, parse_u64, parse_u64_spec,
    push_char, push_str, push_u64, same_text, split_char, split_on, starts_with_text, text_of,
    text_of_range, trim, trim_bounds, views,
};

verus! {

/// A reaction: an emoji of a server, known by its number, or a Unicode
/// emoji.
pub enum Reaction {
    Custom { animated: bool, id: u64, name: Option<String> },
    Unicode(String),
}

/// A reaction as plain values.
pub enum ReactionView {
    Custom(bool, u64, Option<Seq<char>>),
    Unicode(Seq<char>),
}

impl View for Reaction {
    type V = ReactionView;

    open spec fn view(&self) -> ReactionView {
        match self {
            Reaction::Custom { animated, id, name } => ReactionView::Custom(*animated, *id, opt_string(*name)),
            Reaction::Unicode(v) => ReactionView::Unicode(v@),
        }
    }
}

/// An optional reaction as plain values.
pub open spec fn opt_reaction(r: Option<Reaction>) -> Option<ReactionView> {
    match r {
        Some(x) => Some(x@),
        None => None,
    }
}

/// A reaction is a bracket.
pub open spec fn is_angle(c: char) -> bool {
    c == '<' || c == '>'
}

/// `s` without its leading brackets.
pub open spec fn trim_angles_start(s: Seq<char>) -> Seq<char>
    decreases s.len(),
{
    if s.len() > 0 && is_angle(s[0]) {
        trim_angles_start(s.drop_first())
    } else {
        s
    }
}

/// `s` without its trailing brackets.
pub open spec fn trim_angles_end(s: Seq<char>) -> Seq<char>
    decreases s.len(),
{
    if s.len() > 0 && is_angle(s.last()) {
        trim_angles_end(s.drop_last())
    } else {
        s
    }
}

/// A non-zero decimal number (std `NonZeroU64::from_str`).
pub open spec fn nonzero_u64(t: Seq<char>) -> Option<u64> {
    match parse_u64_spec(t) {
        Some(n) => if n != 0 { Some(n) } else { None },
        None => None,
    }
}

/// What serenity's `ReactionType::try_from(&str)` gives: nothing for an
/// empty text, the text itself as a Unicode emoji when it does not start
/// with `<`, and for `<...>` the pieces between `:` of the text without its
/// brackets: `a` first for an animated emoji, then the name, then a
/// non-zero number.
pub open spec fn serenity_reaction(s: Seq<char>) -> Option<ReactionView> {
    if s.len() == 0 {
        None
    } else if s[0] != '<' {
        Some(ReactionView::Unicode(s))
    } else if s.last() != '>' {
        None
    } else {
        let parts = split_on(trim_angles_end(trim_angles_start(s)), ':');
        if parts.len() < 3 {
            None
        } else {
            match nonzero_u64(parts[2]) {
                Some(id) => Some(ReactionView::Custom(parts[0] == seq!['a'], id, Some(parts[1]))),
                None => None,
            }
        }
    }
}

/// Reads an emoji the way serenity does (`ReactionType::try_from(&str)`,
/// its error dropped); the variant and its fields are carried over as they
/// are.
#[verifier::external_body]
fn serenity_reaction_of(s: &str) -> (r: Option<Reaction>)
    ensures
        opt_reaction(r) == serenity_reaction(s@),
{
    match serenity::all::ReactionType::try_from(s) {
        Ok(serenity::all::ReactionType::Custom { animated, id, name }) => Some(Reaction::Custom { animated, id: id.get(), name }),
        Ok(serenity::all::ReactionType::Unicode(v)) => Some(Reaction::Unicode(v)),
        Ok(_) => None,
        Err(_) => None,
    }
}

/// The bracketed form written by hand for an emoji of a server:
/// `<:name:id>` or `<a:name:id>`.
pub open spec fn custom_form(s: Seq<char>) -> bool {
    (has_prefix(s, "<:"@) || has_prefix(s, "<a:"@)) && s.len() > 0 && s.last() == '>'
}

/// Inside of the bracketed form: after `<:` or `<a:`, before `>`.
pub open spec fn custom_content(s: Seq<char>) -> Seq<char> {
    let c = s.subrange(2, s.len() - 1);
    if has_prefix(s, "<a:"@) {
        c.drop_first()
    } else {
        c
    }
}

/// Name and number text of the bracketed form, split at the first `:`.
pub open spec fn custom_parts(s: Seq<char>) -> Option<(Seq<char>, Seq<char>)> {
    let c = custom_content(s);
    match find_first(c, seq![':']) {
        Some(k) => Some((c.take(k), c.skip(k + 1))),
        None => None,
    }
}

/// The bracketed form names the emoji number zero, which no emoji has.
pub open spec fn names_emoji_zero(raw: Seq<char>) -> bool {
    let s = trim(raw);
    custom_form(s) && match custom_parts(s) {
        Some(p) => parse_u64_spec(p.1) == Some(0u64),
        None => false,
    }
}

/// How a configured emoji is read: nothing when blank; the bracketed form
/// of a server emoji when its number reads; else serenity's reading, and
/// failing that the text as a Unicode emoji.
pub open spec fn reaction_of(raw: Seq<char>) -> Option<ReactionView> {
    let s = trim(raw);
    if s.len() == 0 {
        None
    } else {
        let hand = if custom_form(s) {
            match custom_parts(s) {
                Some(p) => match parse_u64_spec(p.1) {
                    Some(id) => Some(ReactionView::Custom(has_prefix(s, "<a:"@), id, Some(p.0))),
                    None => None,
                },
                None => None,
            }
        } else {
            None
        };
        match hand {
            Some(r) => Some(r),
            None => match serenity_reaction(s) {
                Some(r) => Some(r),
                None => Some(ReactionView::Unicode(s)),
            },
        }
    }
}

fn custom_parts_exec(s: &str) -> (r: Option<(String, String)>)
    requires
        custom_form(s@),
    ensures
        match custom_parts(s@) {
            Some(p) => r matches Some(q) && q.0@ == p.0 && q.1@ == p.1,
            None => r is None,
        },
{
    let v = chars_of(s);
    let n = v.len();
    let animated = starts_with_text(s, "<a:");
    proof {
        reveal_strlit("<:");
        reveal_strlit("<a:");
    }
    proof {
        if animated {
            assert(s@.subrange(0, 3) == "<a:"@);
            assert(s@.subrange(0, 3)[2] == s@[2]);
            assert(s@[2] == ':');
        } else {
            assert(s@.subrange(0, 2) == "<:"@);
            assert(s@.subrange(0, 2)[1] == s@[1]);
            assert(s@[1] == ':');
        }
    }
    let from: usize = if animated { 3 } else { 2 };
    let content = crate::text::slice_chars(&v, from, n - 1);
    assert(content@ =~= custom_content(s@));
    let colon: Vec<char> = vec![':'];
    assert(colon@ =~= seq![':']);
    let k = match find_chars_from(&content, &colon, 0) {
        Some(k) => k,
        None => return None,
    };
    proof {
        lemma_find_from(content@, colon@, 0);
        assert(occurs_at(content@, colon@, k as int));
    }
    let name = text_of_range(&content, 0, k);
    let id_text = text_of_range(&content, k + 1, content.len());
    assert(name@ =~= content@.take(k as int));
    assert(id_text@ =~= content@.skip(k + 1));
    Some((name, id_text))
}

/// Whether `raw`, trimmed, is the bracketed form of an emoji numbered zero
/// (`<:name:0>`): no emoji has that number, and such a text is not read.
pub fn names_emoji_number_zero(raw: &str) -> (r: bool)
    ensures
        r == names_emoji_zero(raw@),
{
    let v = chars_of(raw);
    let (a, b) = trim_bounds(&v);
    if a == b {
        return false;
    }
    let s = text_of_range(&v, a, b);
    let t = s.as_str();
    let n = t.unicode_len();
    if (starts_with_text(t, "<:") || starts_with_text(t, "<a:")) && t.get_char(n - 1) == '>' {
        match custom_parts_exec(t) {
            Some((_, id_text)) => match parse_u64(id_text.as_str()) {
                Some(id) => id == 0,
                None => false,
            },
            None => false,
        }
    } else {
        false
    }
}

fn hand_custom(s: &str) -> (r: Option<Reaction>)
    requires
        custom_form(s@),
        !(custom_parts(s@) matches Some(p) && parse_u64_spec(p.1) == Some(0u64)),
    ensures
        opt_reaction(r) == match custom_parts(s@) {
            Some(p) => match parse_u64_spec(p.1) {
                Some(id) => Some(ReactionView::Custom(has_prefix(s@, "<a:"@), id, Some(p.0))),
                None => None,
            },
            None => None,
        },
{
    let animated = starts_with_text(s, "<a:");
    proof {
        reveal_strlit("<a:");
    }
    let (name, id_text) = match custom_parts_exec(s) {
        Some(p) => p,
        None => return None,
    };
    match parse_u64(id_text.as_str()) {
        Some(id) => Some(Reaction::Custom { animated, id, name: Some(name) }),
        None => None,
    }
}

/// Reads a configured emoji: `<:name:id>` and `<a:name:id>` for an emoji of
/// a server, anything else as serenity reads it, and as a Unicode emoji when
/// serenity cannot; nothing for a blank text.
pub fn parse_reaction_type(raw: &str) -> (r: Option<Reaction>)
    requires
        !names_emoji_zero(raw@),
    ensures
        opt_reaction(r) == reaction_of(raw@),
{
    let v = chars_of(raw);
    let (a, b) = trim_bounds(&v);
    if a == b {
        return None;
    }
    let s = text_of_range(&v, a, b);
    let t = s.as_str();
    let n = t.unicode_len();
    if (starts_with_text(t, "<:") || starts_with_text(t, "<a:")) && t.get_char(n - 1) == '>' {
        if let Some(r) = hand_custom(t) {
            return Some(r);
        }
    }
    match serenity_reaction_of(t) {
        Some(r) => Some(r),
        None => Some(Reaction::Unicode(owned(t))),
    }
}

/// Key of a reaction: the number of a server emoji (its name may change),
/// the emoji itself for a Unicode one.
pub open spec fn key_of(r: ReactionView) -> Seq<char> {
    match r {
        ReactionView::Custom(_, id, _) => nat_text(id as nat),
        ReactionView::Unicode(v) => v,
    }
}

/// Key of a reaction, by which the matching game is found.
pub fn reaction_key(emoji: &Reaction) -> (r: Option<String>)
    ensures
        opt_string(r) == Some(key_of(emoji@)),
{
    match emoji {
        Reaction::Custom { id, .. } => Some(crate::text::u64_text(*id)),
        Reaction::Unicode(v) => Some(owned(v.as_str())),
    }
}

/// How serenity writes a reaction (`Display for ReactionType`):
/// `<a:name:id>` or `<:name:id>` for a server emoji, the emoji itself
/// otherwise.
pub open spec fn reaction_text(r: ReactionView) -> Seq<char> {
    match r {
        ReactionView::Custom(animated, id, name) => (if animated { "<a:"@ } else { "<:"@ }) + match name {
            Some(n) => n,
            None => Seq::empty(),
        } + seq![':'] + nat_text(id as nat) + seq!['>'],
        ReactionView::Unicode(v) => v,
    }
}

/// The written form of a reaction.
pub fn reaction_display(r: &Reaction) -> (s: String)
    ensures
        s@ == reaction_text(r@),
{
    match r {
        Reaction::Custom { animated, id, name } => {
            let mut s = if *animated { owned("<a:") } else { owned("<:") };
            let ghost head = s@;
            match name {
                Some(n) => push_str(&mut s, n.as_str()),
                None => {
                    assert(head + Seq::<char>::empty() =~= head);
                },
            }
            push_char(&mut s, ':');
            push_u64(&mut s, *id);
            push_char(&mut s, '>');
            s
        },
        Reaction::Unicode(v) => owned(v.as_str()),
    }
}

/// The emoji of this game designates the reaction: equal to it, or read as
/// an emoji whose key is the reaction.
pub open spec fn designates(emoji: Option<String>, reaction: Seq<char>) -> bool {
    match emoji {
        Some(e) => e@ == reaction || match reaction_of(e@) {
            Some(r) => key_of(r) == reaction,
            None => false,
        },
        None => false,
    }
}

/// Every configured emoji of `games` can be read.
pub open spec fn emojis_readable(games: Seq<Game>) -> bool {
    forall|i: int| 0 <= i < games.len() ==> (#[trigger] games[i].emoji matches Some(e) ==> !names_emoji_zero(e@))
}

/// Every emoji that the search for `reaction` reads can be read: that of each
/// game up to the first one whose emoji designates the reaction, unless the
/// emoji is the reaction itself (it is then not read).
pub open spec fn examined_emojis_readable(games: Seq<Game>, reaction: Seq<char>) -> bool {
    forall|i: int|
        0 <= i < games.len() && (forall|j: int| 0 <= j < i ==> !designates(#[trigger] games[j].emoji, reaction))
            ==> (#[trigger] games[i].emoji matches Some(e) ==> (e@ != reaction ==> !names_emoji_zero(e@)))
}

fn emoji_designates(emoji: &Option<String>, reaction: &str) -> (r: bool)
    requires
        emoji matches Some(e) ==> (e@ != reaction@ ==> !names_emoji_zero(e@)),
    ensures
        r == designates(*emoji, reaction@),
{
    match emoji {
        Some(e) => {
            if same_text(e.as_str(), reaction) {
                return true;
            }
            match parse_reaction_type(e.as_str()) {
                Some(p) => {
                    let k = reaction_key(&p);
                    match k {
                        Some(k) => same_text(k.as_str(), reaction),
                        None => false,
                    }
                },
                None => false,
            }
        },
        None => false,
    }
}

/// The first game whose emoji designates the reaction.
pub fn find_game_for_reaction<'a>(games: &'a [Game], reaction: &str) -> (r: Option<&'a Game>)
    requires
        examined_emojis_readable(games@, reaction@),
    ensures
        r matches Some(g) ==> exists|i: int|
            0 <= i < games@.len() && games@[i] == *g && designates(games@[i].emoji, reaction@)
                && forall|j: int| 0 <= j < i ==> !designates(#[trigger] games@[j].emoji, reaction@),
        r is None ==> forall|i: int| 0 <= i < games@.len() ==> !designates(#[trigger] games@[i].emoji, reaction@),
{
    let mut i: usize = 0;
    while i < games.len()
        invariant
            i <= games@.len(),
            examined_emojis_readable(games@, reaction@),
            forall|j: int| 0 <= j < i ==> !designates(#[trigger] games@[j].emoji, reaction@),
        decreases games@.len() - i,
    {
        if emoji_designates(&games[i].emoji, reaction) {
            return Some(&games[i]);
        }
        i = i + 1;
    }
    None
}

/// The written forms of a list of reactions.
pub open spec fn texts_of(v: Seq<ReactionView>) -> Seq<Seq<char>> {
    v.map_values(|r: ReactionView| reaction_text(r))
}

/// The reactions of a panel: the readable emojis of its games, in order,
/// each written form once.
pub open spec fn panel_fold(games: Seq<Game>) -> Seq<ReactionView>
    decreases games.len(),
{
    if games.len() == 0 {
        Seq::empty()
    } else {
        let prev = panel_fold(games.drop_last());
        match games.last().emoji {
            Some(e) => match reaction_of(e@) {
                Some(r) => if texts_of(prev).contains(reaction_text(r)) {
                    prev
                } else {
                    prev.push(r)
                },
                None => prev,
            },
            None => prev,
        }
    }
}

/// The reactions of a list of reactions, as plain values.
pub open spec fn reaction_views(v: Seq<Reaction>) -> Seq<ReactionView> {
    v.map_values(|r: Reaction| r@)
}

fn seen_contains(seen: &Vec<String>, t: &str) -> (r: bool)
    ensures
        r == views(seen@).contains(t@),
{
    let mut i: usize = 0;
    while i < seen.len()
        invariant
            i <= seen@.len(),
            forall|j: int| 0 <= j < i ==> seen@[j]@ != t@,
        decreases seen@.len() - i,
    {
        if same_text(seen[i].as_str(), t) {
            assert(views(seen@)[i as int] == t@);
            return true;
        }
        i = i + 1;
    }
    proof {
        if views(seen@).contains(t@) {
            let j = choose|j: int| 0 <= j < views(seen@).len() && views(seen@)[j] == t@;
            assert(seen@[j]@ == t@);
        }
    }
    false
}

/// The reactions to put under a panel, without duplicates.
pub fn panel_reactions(games: &[Game]) -> (r: Vec<Reaction>)
    requires
        emojis_readable(games@),
    ensures
        reaction_views(r@) == panel_fold(games@),
{
    let mut out: Vec<Reaction> = Vec::new();
    let mut seen: Vec<String> = Vec::new();
    let mut i: usize = 0;
    while i < games.len()
        invariant
            i <= games@.len(),
            emojis_readable(games@),
            reaction_views(out@) == panel_fold(games@.take(i as int)),
            views(seen@) == texts_of(reaction_views(out@)),
        decreases games@.len() - i,
    {
        assert(games@.take(i + 1).drop_last() =~= games@.take(i as int));
        assert(games@.take(i + 1).last() == games@[i as int]);
        match &games[i].emoji {
            Some(e) => {
                match parse_reaction_type(e.as_str()) {
                    Some(p) => {
                        let t = reaction_display(&p);
                        if !seen_contains(&seen, t.as_str()) {
                            let ghost before = reaction_views(out@);
                            let ghost pv = p@;
                            let ghost sbefore = views(seen@);
                            let ghost tv = t@;
                            out.push(p);
                            seen.push(t);
                            assert(reaction_views(out@) =~= before.push(pv));
                            assert(views(seen@) =~= sbefore.push(tv));
                            assert(texts_of(reaction_views(out@)) =~= texts_of(before).push(reaction_text(pv)));
                        }
                    },
                    None => {},
                }
            },
            None => {},
        }
        i = i + 1;
    }
    assert(games@.take(games@.len() as int) =~= games@);
    out
}

} // verus!
