//! The games catalogue of a guild: subscription panels, the replies of the
//! `/game` and `/game-admin` commands, and what a click on a panel changes.

use vstd::prelude::*;
use vstd::string::*;

use crate::api_client::{Game, GamePanel};
use crate::embeds::Embed;
use crate::text::{
    chars_of, find_chars_from, has_prefix, joined, join_texts, last_index_of, nat_text, opt_string,
    opt_text, owned, parse_u64, parse_u64_spec, push_char, push_str, push_u64, rfind_char,
    same_text, starts_with_text, text_of_range, views,
};

verus! {

/// Prefix of the custom id of the select menus of older panels
/// (`game_panel_select_{panel_id}_{chunk}`).
pub const PANEL_SELECT_PREFIX: &'static str = "game_panel_select_";

/// Prefix of the custom id of the buttons of a panel
/// (`game_panel_btn|{panel_id}|{game_id}`).
pub const PANEL_BUTTON_PREFIX: &'static str = "game_panel_btn|";

/// Games shown at most on one panel.
pub const MAX_BUTTONS_PER_PANEL: usize = 25;

/// Games covered by one select menu.
pub const SELECT_CHUNK_SIZE: usize = 25;

/// Color of the informational embeds of the games module.
pub const INFO_COLOR: u32 = 0x3498db;

/// The games module answers this component.
pub open spec fn games_component(cid: Seq<char>) -> bool {
    has_prefix(cid, PANEL_SELECT_PREFIX@) || has_prefix(cid, PANEL_BUTTON_PREFIX@)
}

/// The games module answers this component.
pub fn handles_component(cid: &str) -> (r: bool)
    ensures
        r == games_component(cid@),
{
    starts_with_text(cid, PANEL_SELECT_PREFIX) || starts_with_text(cid, PANEL_BUTTON_PREFIX)
}

/// Role of a game, when its stored id reads as a number.
pub open spec fn role_of(g: Game) -> Option<u64> {
    match g.role_id {
        Some(r) => parse_u64_spec(r@),
        None => None,
    }
}

/// Role of a game, when its stored id reads as a number.
pub fn game_role_id(g: &Game) -> (r: Option<u64>)
    ensures
        r == role_of(*g),
{
    match &g.role_id {
        Some(r) => parse_u64(r.as_str()),
        None => None,
    }
}

// ---------------------------------------------------------------------
// Panel
// ---------------------------------------------------------------------

/// Line of a game on its panel: its emoji and a space when it has one,
/// then the mention of its role, or its name in bold without a role.
pub open spec fn panel_line(g: Game) -> Seq<char> {
    let emoji = match g.emoji {
        Some(e) => e@,
        None => Seq::empty(),
    };
    (if emoji.len() == 0 { Seq::empty() } else { emoji + seq![' '] }) + match role_of(g) {
        Some(rid) => "<@&"@ + nat_text(rid as nat) + ">"@,
        None => "**"@ + g.game_name@ + "**"@,
    }
}

/// Description of a panel.
pub open spec fn panel_description(games: Seq<Game>) -> Seq<char> {
    if games.len() == 0 {
        "*Aucun jeu.*"@
    } else {
        joined(Seq::new(games.len(), |i: int| panel_line(games[i])), "\n"@)
            + "\n\n*Clique sur une réaction ci-dessous pour rejoindre ou quitter un jeu et recevoir (ou non) ses notifications.*"@
    }
}

/// Title of the panel of a category.
pub open spec fn panel_title(category: Option<Seq<char>>) -> Seq<char> {
    match category {
        Some(c) => "- [ "@ + c + " ] -"@,
        None => "- [ Jeux ] -"@,
    }
}

fn panel_line_of(g: &Game) -> (r: String)
    ensures
        r@ == panel_line(*g),
{
    let mut s = String::new();
    match &g.emoji {
        Some(e) => {
            if e.as_str().unicode_len() > 0 {
                push_str(&mut s, e.as_str());
                push_char(&mut s, ' ');
            } else {
                assert(e@ =~= Seq::<char>::empty());
            }
        },
        None => {},
    }
    let ghost head = s@;
    match game_role_id(g) {
        Some(rid) => {
            push_str(&mut s, "<@&");
            push_u64(&mut s, rid);
            push_str(&mut s, ">");
        },
        None => {
            push_str(&mut s, "**");
            push_str(&mut s, g.game_name.as_str());
            push_str(&mut s, "**");
        },
    }
    assert(s@ =~= panel_line(*g));
    s
}

/// The subscription panel of a category (at most the first games that fit
/// are passed).
pub fn build_panel_embed(category: Option<&str>, games: &[Game]) -> (r: Embed)
    ensures
        opt_string(r.title) == Some(panel_title(opt_text(category))),
        opt_string(r.description) == Some(panel_description(games@)),
        r.color == Some(INFO_COLOR),
        r.fields@.len() == 0,
        r.footer is None,
        r.image is None,
        r.thumbnail is None,
        !r.timestamp,
{
    let title = match category {
        Some(c) => {
            let mut t = owned("- [ ");
            push_str(&mut t, c);
            push_str(&mut t, " ] -");
            t
        },
        None => owned("- [ Jeux ] -"),
    };
    let desc = if games.len() == 0 {
        owned("*Aucun jeu.*")
    } else {
        let ghost want = Seq::new(games@.len(), |i: int| panel_line(games@[i]));
        let mut lines: Vec<String> = Vec::new();
        let mut i: usize = 0;
        while i < games.len()
            invariant
                i <= games@.len(),
                want == Seq::new(games@.len(), |i: int| panel_line(games@[i])),
                views(lines@) == want.take(i as int),
            decreases games@.len() - i,
        {
            let line = panel_line_of(&games[i]);
            let ghost before = views(lines@);
            let ghost lv = line@;
            lines.push(line);
            assert(views(lines@) =~= before.push(lv));
            assert(views(lines@) =~= want.take(i + 1));
            i = i + 1;
        }
        assert(want.take(games@.len() as int) =~= want);
        let mut s = join_texts(lines.as_slice(), "\n");
        push_str(&mut s, "\n\n*Clique sur une réaction ci-dessous pour rejoindre ou quitter un jeu et recevoir (ou non) ses notifications.*");
        s
    };
    Embed::new().title(title).color(INFO_COLOR).description(desc)
}

/// A stored role is still valid: present among the guild's roles, or
/// trusted when the roles could not be read; no role is never valid.
pub open spec fn role_still_valid(guild_roles: Option<Seq<u64>>, stored: Option<u64>) -> bool {
    match (guild_roles, stored) {
        (Some(roles), Some(id)) => roles.contains(id),
        (None, Some(_)) => true,
        _ => false,
    }
}

/// The stored role of a game is still valid (`guild_roles` are the ids of
/// the guild's roles, when they could be read).
pub fn is_stored_role_valid(guild_roles: Option<&[u64]>, stored_role: Option<u64>) -> (r: bool)
    ensures
        r == role_still_valid(
            match guild_roles {
                Some(v) => Some(v@),
                None => None,
            },
            stored_role,
        ),
{
    match (guild_roles, stored_role) {
        (Some(roles), Some(id)) => contains_id(roles, id),
        (None, Some(_)) => true,
        _ => false,
    }
}

/// Stored role of a game as the role repair reads it: the id, trimmed,
/// read as a number.
pub open spec fn stored_role_of(g: Game) -> Option<u64> {
    match g.role_id {
        Some(r) => parse_u64_spec(crate::text::trim(r@)),
        None => None,
    }
}

/// Stored role of a game as the role repair reads it.
pub fn stored_role(g: &Game) -> (r: Option<u64>)
    ensures
        r == stored_role_of(*g),
{
    match &g.role_id {
        Some(r) => {
            let t = crate::text::trimmed(r.as_str());
            parse_u64(t.as_str())
        },
        None => None,
    }
}

/// Reply once a panel is deployed.
pub fn format_panel_deployed_message(game_count: usize) -> (r: String)
    ensures
        r@ == "Panneau deploye ("@ + nat_text(game_count as nat) + " jeux)."@,
{
    let mut s = owned("Panneau deploye (");
    push_u64(&mut s, game_count as u64);
    push_str(&mut s, " jeux).");
    s
}

/// Reply once a panel is refreshed.
pub fn format_panel_refresh_message(game_count: usize) -> (r: String)
    ensures
        r@ == "Panneau rafraichi ("@ + nat_text(game_count as nat) + " jeux)."@,
{
    let mut s = owned("Panneau rafraichi (");
    push_u64(&mut s, game_count as u64);
    push_str(&mut s, " jeux).");
    s
}

// ---------------------------------------------------------------------
// Clicks on a panel
// ---------------------------------------------------------------------

/// Panel and game of a button's custom id: what follows the prefix, split
/// at the first `|`.
pub open spec fn button_target_spec(cid: Seq<char>) -> Option<(Seq<char>, Seq<char>)> {
    if has_prefix(cid, PANEL_BUTTON_PREFIX@) {
        let rest = cid.skip(PANEL_BUTTON_PREFIX@.len() as int);
        match crate::text::find_first(rest, seq!['|']) {
            Some(k) => Some((rest.take(k), rest.skip(k + 1))),
            None => None,
        }
    } else {
        None
    }
}

/// Panel and game of a button of a panel.
pub fn button_target(cid: &str) -> (r: Option<(String, String)>)
    ensures
        r matches Some(t) ==> button_target_spec(cid@) == Some((t.0@, t.1@)),
        r is None ==> button_target_spec(cid@) is None,
{
    if !starts_with_text(cid, PANEL_BUTTON_PREFIX) {
        return None;
    }
    let v = chars_of(cid);
    let p = chars_of(PANEL_BUTTON_PREFIX).len();
    let rest = crate::text::slice_chars(&v, p, v.len());
    assert(rest@ =~= cid@.skip(PANEL_BUTTON_PREFIX@.len() as int));
    let bar: Vec<char> = vec!['|'];
    assert(bar@ =~= seq!['|']);
    let k = match find_chars_from(&rest, &bar, 0) {
        Some(k) => k,
        None => return None,
    };
    proof {
        crate::text::lemma_find_from(rest@, bar@, 0);
        assert(crate::text::occurs_at(rest@, bar@, k as int));
    }
    let panel = text_of_range(&rest, 0, k);
    let game = text_of_range(&rest, k + 1, rest.len());
    assert(panel@ =~= rest@.take(k as int));
    assert(game@ =~= rest@.skip(k + 1));
    Some((panel, game))
}

/// The panel a click names: the first one with that id.
pub fn find_panel<'a>(panels: &'a [GamePanel], panel_id: &str) -> (r: Option<&'a GamePanel>)
    ensures
        r matches Some(p) ==> exists|i: int|
            0 <= i < panels@.len() && panels@[i] == *p && panels@[i].id@ == panel_id@
                && forall|j: int| 0 <= j < i ==> (#[trigger] panels@[j]).id@ != panel_id@,
        r is None ==> forall|i: int| 0 <= i < panels@.len() ==> (#[trigger] panels@[i]).id@ != panel_id@,
{
    let mut i: usize = 0;
    while i < panels.len()
        invariant
            i <= panels@.len(),
            forall|j: int| 0 <= j < i ==> (#[trigger] panels@[j]).id@ != panel_id@,
        decreases panels@.len() - i,
    {
        if same_text(panels[i].id.as_str(), panel_id) {
            return Some(&panels[i]);
        }
        i = i + 1;
    }
    None
}

/// Index of the first game of `games` with this id.
pub open spec fn first_game_with_id(games: Seq<Game>, game_id: Seq<char>, i: int) -> bool {
    0 <= i < games.len() && games[i].id@ == game_id && forall|j: int| 0 <= j < i ==> (#[trigger] games[j]).id@ != game_id
}

/// The game a click names: the first one with that id.
pub fn find_game<'a>(games: &'a [Game], game_id: &str) -> (r: Option<&'a Game>)
    ensures
        r matches Some(g) ==> exists|i: int| first_game_with_id(games@, game_id@, i) && games@[i] == *g,
        r is None ==> forall|i: int| 0 <= i < games@.len() ==> (#[trigger] games@[i]).id@ != game_id@,
{
    let mut i: usize = 0;
    while i < games.len()
        invariant
            i <= games@.len(),
            forall|j: int| 0 <= j < i ==> (#[trigger] games@[j]).id@ != game_id@,
        decreases games@.len() - i,
    {
        if same_text(games[i].id.as_str(), game_id) {
            assert(first_game_with_id(games@, game_id@, i as int));
            return Some(&games[i]);
        }
        i = i + 1;
    }
    None
}

/// Reply when the clicked game is no longer listed.
pub open spec fn game_gone_message() -> Seq<char> {
    "Ce jeu n'existe plus."@
}

/// Reply when the clicked game has no readable role.
pub open spec fn game_without_role_message() -> Seq<char> {
    "Ce jeu n'a pas de role associe. Demande a un admin de le recreer."@
}

/// The game a click on a panel's button names, and its role: refused when
/// no game has that id, or when the first that has it has no readable role.
pub fn clicked_game_role<'a>(games: &'a [Game], game_id: &str) -> (r: Result<(&'a Game, u64), &'static str>)
    ensures
        r matches Ok((g, rid)) ==> role_of(*g) == Some(rid) && exists|i: int|
            first_game_with_id(games@, game_id@, i) && games@[i] == *g,
        r matches Err(m) ==> (m@ == game_gone_message() && forall|i: int|
            0 <= i < games@.len() ==> (#[trigger] games@[i]).id@ != game_id@) || (m@
            == game_without_role_message() && exists|i: int|
            first_game_with_id(games@, game_id@, i) && role_of(games@[i]) is None),
        (exists|i: int| first_game_with_id(games@, game_id@, i) && role_of(games@[i]) is Some) ==> r is Ok,
{
    match find_game(games, game_id) {
        None => Err("Ce jeu n'existe plus."),
        Some(g) => match game_role_id(g) {
            Some(rid) => Ok((g, rid)),
            None => {
                proof {
                    let i = choose|i: int| first_game_with_id(games@, game_id@, i) && games@[i] == *g;
                    assert forall|k: int| first_game_with_id(games@, game_id@, k) implies k == i by {
                        if k < i {
                            assert(games@[k].id@ != game_id@);
                        } else if k > i {
                            assert(games@[i].id@ != game_id@);
                        }
                    }
                }
                Err("Ce jeu n'a pas de role associe. Demande a un admin de le recreer.")
            },
        },
    }
}

/// The member already holds the role: a click takes it away rather than
/// giving it.
pub fn holds_role(held: &[u64], role: u64) -> (r: bool)
    ensures
        r == held@.contains(role),
{
    let mut i: usize = 0;
    while i < held.len()
        invariant
            i <= held@.len(),
            forall|j: int| 0 <= j < i ==> held@[j] != role,
        decreases held@.len() - i,
    {
        if held[i] == role {
            return true;
        }
        i = i + 1;
    }
    false
}

/// Reply to a click on a game's button: the member followed the game (and
/// the role was to be taken away) or not, and the change succeeded or not.
pub open spec fn toggle_reply_spec(had_role: bool, game_name: Seq<char>, done: bool) -> Seq<char> {
    if had_role {
        if done {
            "\u{274e} Tu ne suis plus **"@ + game_name + "**."@
        } else {
            "Erreur lors du desabonnement (hierarchie des roles ?)."@
        }
    } else {
        if done {
            "\u{2705} Tu suis maintenant **"@ + game_name + "** ! Tu seras notifie."@
        } else {
            "Erreur lors de l'abonnement (hierarchie des roles ?)."@
        }
    }
}

/// Reply to a click on a game's button.
pub fn toggle_reply(had_role: bool, game_name: &str, done: bool) -> (r: String)
    ensures
        r@ == toggle_reply_spec(had_role, game_name@, done),
{
    if had_role {
        if done {
            let mut s = owned("\u{274e} Tu ne suis plus **");
            push_str(&mut s, game_name);
            push_str(&mut s, "**.");
            s
        } else {
            owned("Erreur lors du desabonnement (hierarchie des roles ?).")
        }
    } else {
        if done {
            let mut s = owned("\u{2705} Tu suis maintenant **");
            push_str(&mut s, game_name);
            push_str(&mut s, "** ! Tu seras notifie.");
            s
        } else {
            owned("Erreur lors de l'abonnement (hierarchie des roles ?).")
        }
    }
}

/// Panel and chunk of a select menu's custom id: after the prefix, the
/// panel id is what comes before the last `_` (all of it without one), and
/// the chunk is what follows the last `_` of the whole id, read as a number
/// (zero when it does not read).
pub open spec fn select_target_spec(cid: Seq<char>) -> Option<(Seq<char>, nat)> {
    if has_prefix(cid, PANEL_SELECT_PREFIX@) {
        let suffix = cid.skip(PANEL_SELECT_PREFIX@.len() as int);
        let panel = match last_index_of(suffix, '_') {
            Some(k) => suffix.take(k),
            None => suffix,
        };
        let chunk: nat = match last_index_of(cid, '_') {
            Some(k) => match parse_u64_spec(cid.skip(k + 1)) {
                Some(n) => n as nat,
                None => 0,
            },
            None => 0,
        };
        Some((panel, chunk))
    } else {
        None
    }
}

/// Panel and chunk of a select menu of an older panel.
pub fn select_target(cid: &str) -> (r: Option<(String, u64)>)
    ensures
        r matches Some(t) ==> select_target_spec(cid@) == Some((t.0@, t.1 as nat)),
        r is None ==> select_target_spec(cid@) is None,
{
    if !starts_with_text(cid, PANEL_SELECT_PREFIX) {
        return None;
    }
    let v = chars_of(cid);
    let p = chars_of(PANEL_SELECT_PREFIX).len();
    let suffix = crate::text::slice_chars(&v, p, v.len());
    assert(suffix@ =~= cid@.skip(PANEL_SELECT_PREFIX@.len() as int));
    let panel = match rfind_char(&suffix, '_') {
        Some(k) => {
            proof {
                crate::text::lemma_last_index_of(suffix@, '_');
            }
            let t = text_of_range(&suffix, 0, k);
            assert(t@ =~= suffix@.take(k as int));
            t
        },
        None => crate::text::text_of(&suffix),
    };
    let chunk: u64 = match rfind_char(&v, '_') {
        Some(k) => {
            proof {
                crate::text::lemma_last_index_of(v@, '_');
            }
            let t = text_of_range(&v, k + 1, v.len());
            assert(t@ =~= v@.skip(k + 1));
            match parse_u64(t.as_str()) {
                Some(n) => n,
                None => 0,
            }
        },
        None => 0,
    };
    Some((panel, chunk))
}

/// The games of one select menu: the `chunk`-th run of 25 games.
pub open spec fn chunk_games_spec(games: Seq<Game>, chunk: nat) -> Seq<Game> {
    let start = chunk * 25;
    if start >= games.len() {
        Seq::empty()
    } else if start + 25 <= games.len() {
        games.subrange(start as int, start + 25int)
    } else {
        games.subrange(start as int, games.len() as int)
    }
}

/// Bounds of the games of one select menu in the list.
pub fn chunk_bounds(len: usize, chunk: u64) -> (r: (usize, usize))
    ensures
        r.0 <= r.1 <= len,
        (chunk * 25 >= len) ==> r.0 == r.1,
        (chunk * 25 < len) ==> r.0 == chunk * 25 && r.1 == if chunk * 25 + 25 <= len {
            chunk * 25 + 25
        } else {
            len as int
        },
{
    if chunk >= (len as u64) / 25 + 1 {
        assert(chunk * 25 >= len) by (nonlinear_arith)
            requires
                chunk >= (len as u64) / 25 + 1,
        ;
        return (len, len);
    }
    assert(chunk * 25 <= len) by (nonlinear_arith)
        requires
            chunk <= (len as u64) / 25,
    ;
    let start = (chunk as usize) * 25;
    if start >= len {
        return (len, len);
    }
    let end = if len - start >= 25 { start + 25 } else { len };
    (start, end)
}

/// What a choice in a select menu changes: the roles to give, the roles to
/// take away (each with the game's name), and the games passed over for
/// want of a role.
pub struct SelectionPlan {
    pub to_add: Vec<(u64, String)>,
    pub to_remove: Vec<(u64, String)>,
    pub skipped_legacy: usize,
}

/// Role changes as plain values.
pub open spec fn change_views(v: Seq<(u64, String)>) -> Seq<(u64, Seq<char>)> {
    v.map_values(|c: (u64, String)| (c.0, c.1@))
}

/// The game is among the chosen ones.
pub open spec fn chosen(selected: Seq<Seq<char>>, g: Game) -> bool {
    selected.contains(g.id@)
}

/// The plan of a choice, game by game: a game without a role is passed
/// over; a chosen game whose role the member lacks gives it; a game not
/// chosen whose role the member has takes it away.
pub open spec fn plan_fold(games: Seq<Game>, selected: Seq<Seq<char>>, held: Seq<u64>) -> (Seq<(u64, Seq<char>)>, Seq<(u64, Seq<char>)>, nat)
    decreases games.len(),
{
    if games.len() == 0 {
        (Seq::empty(), Seq::empty(), 0)
    } else {
        let prev = plan_fold(games.drop_last(), selected, held);
        let g = games.last();
        match role_of(g) {
            None => (prev.0, prev.1, prev.2 + 1),
            Some(rid) => {
                let wants = chosen(selected, g);
                let holds = held.contains(rid);
                if wants && !holds {
                    (prev.0.push((rid, g.game_name@)), prev.1, prev.2)
                } else if !wants && holds {
                    (prev.0, prev.1.push((rid, g.game_name@)), prev.2)
                } else {
                    prev
                }
            },
        }
    }
}

/// The `i`-th game takes its role `c.0` away from the member: it has that
/// role and name, was not chosen, and the member holds the role.
pub open spec fn removal_from(games: Seq<Game>, selected: Seq<Seq<char>>, held: Seq<u64>, i: int, c: (u64, Seq<char>)) -> bool {
    0 <= i < games.len() && role_of(games[i]) == Some(c.0) && c.1 == games[i].game_name@ && !chosen(selected, games[i])
        && held.contains(c.0)
}

/// The `i`-th game gives its role `c.0` to the member: it has that role and
/// name, was chosen, and the member lacks the role.
pub open spec fn addition_from(games: Seq<Game>, selected: Seq<Seq<char>>, held: Seq<u64>, i: int, c: (u64, Seq<char>)) -> bool {
    0 <= i < games.len() && role_of(games[i]) == Some(c.0) && c.1 == games[i].game_name@ && chosen(selected, games[i])
        && !held.contains(c.0)
}

/// Some game of the menu takes the role of `c` away from the member.
pub open spec fn removed_by_some_game(games: Seq<Game>, selected: Seq<Seq<char>>, held: Seq<u64>, c: (u64, Seq<char>)) -> bool {
    exists|i: int| removal_from(games, selected, held, i, c)
}

/// Some game of the menu gives the role of `c` to the member.
pub open spec fn added_by_some_game(games: Seq<Game>, selected: Seq<Seq<char>>, held: Seq<u64>, c: (u64, Seq<char>)) -> bool {
    exists|i: int| addition_from(games, selected, held, i, c)
}

/// A choice in a select menu changes only what was asked: a role is taken
/// away only for a game that was not chosen and whose role the member holds
/// (never for a chosen game), and given only for a chosen game whose role
/// the member lacks; and every such game has its change in the plan.
pub proof fn selection_changes_only_what_was_asked(games: Seq<Game>, selected: Seq<Seq<char>>, held: Seq<u64>)
    ensures
        forall|k: int|
            0 <= k < plan_fold(games, selected, held).1.len() ==> removed_by_some_game(
                games,
                selected,
                held,
                #[trigger] plan_fold(games, selected, held).1[k],
            ),
        forall|k: int|
            0 <= k < plan_fold(games, selected, held).0.len() ==> added_by_some_game(
                games,
                selected,
                held,
                #[trigger] plan_fold(games, selected, held).0[k],
            ),
        forall|i: int|
            0 <= i < games.len() && #[trigger] role_of(games[i]) is Some ==> {
                let c = (role_of(games[i])->0, games[i].game_name@);
                &&& removal_from(games, selected, held, i, c) ==> plan_fold(games, selected, held).1.contains(c)
                &&& addition_from(games, selected, held, i, c) ==> plan_fold(games, selected, held).0.contains(c)
            },
    decreases games.len(),
{
    if games.len() > 0 {
        let init = games.drop_last();
        let n = games.len() - 1;
        let prev = plan_fold(init, selected, held);
        let p = plan_fold(games, selected, held);
        selection_changes_only_what_was_asked(init, selected, held);
        assert forall|k: int| 0 <= k < p.1.len() implies removed_by_some_game(games, selected, held, #[trigger] p.1[k]) by {
            if k < prev.1.len() {
                assert(p.1[k] == prev.1[k]);
                assert(removed_by_some_game(init, selected, held, prev.1[k]));
                let i = choose|i: int| removal_from(init, selected, held, i, prev.1[k]);
                assert(init[i] == games[i]);
                assert(removal_from(games, selected, held, i, p.1[k]));
            } else {
                assert(removal_from(games, selected, held, n, p.1[k]));
            }
        }
        assert forall|k: int| 0 <= k < p.0.len() implies added_by_some_game(games, selected, held, #[trigger] p.0[k]) by {
            if k < prev.0.len() {
                assert(p.0[k] == prev.0[k]);
                assert(added_by_some_game(init, selected, held, prev.0[k]));
                let i = choose|i: int| addition_from(init, selected, held, i, prev.0[k]);
                assert(init[i] == games[i]);
                assert(addition_from(games, selected, held, i, p.0[k]));
            } else {
                assert(addition_from(games, selected, held, n, p.0[k]));
            }
        }
        assert forall|i: int| 0 <= i < games.len() && #[trigger] role_of(games[i]) is Some implies {
            let c = (role_of(games[i])->0, games[i].game_name@);
            &&& removal_from(games, selected, held, i, c) ==> p.1.contains(c)
            &&& addition_from(games, selected, held, i, c) ==> p.0.contains(c)
        } by {
            let c = (role_of(games[i])->0, games[i].game_name@);
            if i < n {
                assert(init[i] == games[i]);
                assert(role_of(init[i]) is Some);
                if removal_from(games, selected, held, i, c) {
                    assert(removal_from(init, selected, held, i, c));
                    assert(prev.1.contains(c));
                    let k = choose|k: int| 0 <= k < prev.1.len() && prev.1[k] == c;
                    assert(p.1[k] == c);
                }
                if addition_from(games, selected, held, i, c) {
                    assert(addition_from(init, selected, held, i, c));
                    assert(prev.0.contains(c));
                    let k = choose|k: int| 0 <= k < prev.0.len() && prev.0[k] == c;
                    assert(p.0[k] == c);
                }
            } else {
                if removal_from(games, selected, held, i, c) {
                    assert(p.1[p.1.len() - 1] == c);
                }
                if addition_from(games, selected, held, i, c) {
                    assert(p.0[p.0.len() - 1] == c);
                }
            }
        }
    }
}

fn contains_text_in(v: &[String], t: &str) -> (r: bool)
    ensures
        r == views(v@).contains(t@),
{
    let mut i: usize = 0;
    while i < v.len()
        invariant
            i <= v@.len(),
            forall|j: int| 0 <= j < i ==> v@[j]@ != t@,
        decreases v@.len() - i,
    {
        if same_text(v[i].as_str(), t) {
            assert(views(v@)[i as int] == t@);
            return true;
        }
        i = i + 1;
    }
    proof {
        if views(v@).contains(t@) {
            let j = choose|j: int| 0 <= j < views(v@).len() && views(v@)[j] == t@;
            assert(v@[j]@ == t@);
        }
    }
    false
}

fn contains_id(v: &[u64], id: u64) -> (r: bool)
    ensures
        r == v@.contains(id),
{
    let mut i: usize = 0;
    while i < v.len()
        invariant
            i <= v@.len(),
            forall|j: int| 0 <= j < i ==> v@[j] != id,
        decreases v@.len() - i,
    {
        if v[i] == id {
            return true;
        }
        i = i + 1;
    }
    false
}

/// What a choice in the select menu of `chunk_games` changes for a member
/// who holds the roles `held` and chose the games `selected`.
pub fn plan_selection(chunk_games: &[Game], selected: &[String], held: &[u64]) -> (r: SelectionPlan)
    ensures
        (change_views(r.to_add@), change_views(r.to_remove@), r.skipped_legacy as nat) == plan_fold(
            chunk_games@,
            views(selected@),
            held@,
        ),
{
    let mut to_add: Vec<(u64, String)> = Vec::new();
    let mut to_remove: Vec<(u64, String)> = Vec::new();
    let mut skipped: usize = 0;
    let mut i: usize = 0;
    while i < chunk_games.len()
        invariant
            i <= chunk_games@.len(),
            skipped <= i,
            (change_views(to_add@), change_views(to_remove@), skipped as nat) == plan_fold(
                chunk_games@.take(i as int),
                views(selected@),
                held@,
            ),
        decreases chunk_games@.len() - i,
    {
        assert(chunk_games@.take(i + 1).drop_last() =~= chunk_games@.take(i as int));
        assert(chunk_games@.take(i + 1).last() == chunk_games@[i as int]);
        let g = &chunk_games[i];
        match game_role_id(g) {
            None => {
                skipped = skipped + 1;
            },
            Some(rid) => {
                let wants = contains_text_in(selected, g.id.as_str());
                let holds = contains_id(held, rid);
                if wants && !holds {
                    let ghost before = change_views(to_add@);
                    to_add.push((rid, owned(g.game_name.as_str())));
                    assert(change_views(to_add@) =~= before.push((rid, g.game_name@)));
                } else if !wants && holds {
                    let ghost before = change_views(to_remove@);
                    to_remove.push((rid, owned(g.game_name.as_str())));
                    assert(change_views(to_remove@) =~= before.push((rid, g.game_name@)));
                }
            },
        }
        i = i + 1;
    }
    assert(chunk_games@.take(chunk_games@.len() as int) =~= chunk_games@);
    SelectionPlan { to_add, to_remove, skipped_legacy: skipped }
}

/// Names of the games whose role the member holds, in catalogue order.
pub open spec fn active_fold(games: Seq<Game>, active: Seq<u64>) -> Seq<Seq<char>>
    decreases games.len(),
{
    if games.len() == 0 {
        Seq::empty()
    } else {
        let prev = active_fold(games.drop_last(), active);
        match role_of(games.last()) {
            Some(rid) => if active.contains(rid) {
                prev.push(games.last().game_name@)
            } else {
                prev
            },
            None => prev,
        }
    }
}

/// Names of the games that the member follows once the changes are made.
pub fn active_game_names(games: &[Game], active: &[u64]) -> (r: Vec<String>)
    ensures
        views(r@) == active_fold(games@, active@),
{
    let mut out: Vec<String> = Vec::new();
    let mut i: usize = 0;
    while i < games.len()
        invariant
            i <= games@.len(),
            views(out@) == active_fold(games@.take(i as int), active@),
        decreases games@.len() - i,
    {
        assert(games@.take(i + 1).drop_last() =~= games@.take(i as int));
        assert(games@.take(i + 1).last() == games@[i as int]);
        match game_role_id(&games[i]) {
            Some(rid) => {
                if contains_id(active, rid) {
                    let ghost before = views(out@);
                    out.push(owned(games[i].game_name.as_str()));
                    assert(views(out@) =~= before.push(games@[i as int].game_name@));
                }
            },
            None => {},
        }
        i = i + 1;
    }
    assert(games@.take(games@.len() as int) =~= games@);
    out
}

// ---------------------------------------------------------------------
// Summary of a choice
// ---------------------------------------------------------------------

/// At most the first `k` names, joined by commas.
pub open spec fn shown_names(v: Seq<Seq<char>>, k: nat) -> Seq<char> {
    joined(if v.len() <= k { v } else { v.take(k as int) }, ", "@)
}

/// Names beyond the first `k`.
pub open spec fn extra_count(v: Seq<Seq<char>>, k: nat) -> nat {
    if v.len() <= k { 0 } else { (v.len() - k) as nat }
}

/// `(+n autres)` after a list cut short, nothing otherwise.
pub open spec fn others_text(extra: nat) -> Seq<char> {
    if extra > 0 {
        " (+"@ + nat_text(extra) + " autres)"@
    } else {
        Seq::empty()
    }
}

/// Line of the games added (`+`) or removed (`-`): the first ten names.
pub open spec fn change_line(sign: char, v: Seq<Seq<char>>) -> Seq<char> {
    seq![sign, ' '] + shown_names(v, 10) + others_text(extra_count(v, 10))
}

/// Heading of the summary: what changed, or that nothing did.
pub open spec fn sync_head(added: Seq<Seq<char>>, removed: Seq<Seq<char>>, skipped: nat) -> Seq<Seq<char>> {
    if added.len() > 0 || removed.len() > 0 {
        seq!["**Abonnements mis a jour :**"@] + (if added.len() > 0 {
            seq![change_line('+', added)]
        } else {
            Seq::empty()
        }) + (if removed.len() > 0 {
            seq![change_line('-', removed)]
        } else {
            Seq::empty()
        })
    } else if skipped == 0 {
        seq!["Aucun changement."@]
    } else {
        Seq::empty()
    }
}

/// Line on the games passed over for want of a role, when there are some.
pub open spec fn sync_legacy(skipped: nat) -> Seq<Seq<char>> {
    if skipped > 0 {
        seq![
            "*"@ + nat_text(skipped)
                + " jeu(x) ignore(s) : pas encore de role Discord associe (recree-les via `/game-admin create`).*"@,
        ]
    } else {
        Seq::empty()
    }
}

/// Line on the games the member follows: the first twenty names.
pub open spec fn sync_follow(active: Seq<Seq<char>>) -> Seq<char> {
    if active.len() == 0 {
        "\n**Tu ne suis aucun jeu actuellement.**"@
    } else {
        "\n**Tu suis actuellement ("@ + nat_text(active.len()) + ") :** "@ + shown_names(active, 20)
            + others_text(extra_count(active, 20))
    }
}

/// Lines of the summary of a choice.
pub open spec fn sync_lines(added: Seq<Seq<char>>, removed: Seq<Seq<char>>, skipped: nat, active: Seq<Seq<char>>) -> Seq<Seq<char>> {
    sync_head(added, removed, skipped) + sync_legacy(skipped) + seq![sync_follow(active)]
}

fn shown_list(v: &[String], k: usize) -> (r: String)
    ensures
        r@ == shown_names(views(v@), k as nat) + others_text(extra_count(views(v@), k as nat)),
{
    let n = if v.len() <= k { v.len() } else { k };
    let mut names: Vec<String> = Vec::new();
    let mut i: usize = 0;
    while i < n
        invariant
            n <= v@.len(),
            i <= n,
            views(names@) == views(v@).take(i as int),
        decreases n - i,
    {
        let ghost before = views(names@);
        names.push(owned(v[i].as_str()));
        assert(views(names@) =~= before.push(v@[i as int]@));
        assert(views(names@) =~= views(v@).take(i + 1));
        i = i + 1;
    }
    if v.len() <= k {
        assert(views(v@).take(n as int) =~= views(v@));
    }
    let mut s = join_texts(names.as_slice(), ", ");
    if v.len() > k {
        push_str(&mut s, " (+");
        push_u64(&mut s, (v.len() - k) as u64);
        push_str(&mut s, " autres)");
    } else {
        let ghost b = s@;
        assert(b + Seq::<char>::empty() =~= b);
    }
    s
}

fn change_line_of(sign: char, v: &[String]) -> (r: String)
    ensures
        r@ == change_line(sign, views(v@)),
{
    let mut s = String::new();
    push_char(&mut s, sign);
    push_char(&mut s, ' ');
    let rest = shown_list(v, 10);
    push_str(&mut s, rest.as_str());
    assert(s@ =~= change_line(sign, views(v@)));
    s
}

/// Summary of a choice in a select menu: what changed, the games passed
/// over for want of a role, and every game the member now follows.
pub fn build_sync_response(added: &[String], removed: &[String], skipped_legacy: usize, active_games: &[String]) -> (r: String)
    ensures
        r@ == joined(sync_lines(views(added@), views(removed@), skipped_legacy as nat, views(active_games@)), "\n"@),
{
    let ghost a = views(added@);
    let ghost rm = views(removed@);
    let mut lines: Vec<String> = Vec::new();
    if added.len() > 0 || removed.len() > 0 {
        lines.push(owned("**Abonnements mis a jour :**"));
        let ghost l0 = views(lines@);
        if added.len() > 0 {
            let l = change_line_of('+', added);
            let ghost lv = l@;
            lines.push(l);
            assert(views(lines@) =~= l0.push(lv));
        }
        let ghost l1 = views(lines@);
        if removed.len() > 0 {
            let l = change_line_of('-', removed);
            let ghost lv = l@;
            lines.push(l);
            assert(views(lines@) =~= l1.push(lv));
        }
        assert(views(lines@) =~= sync_head(a, rm, skipped_legacy as nat));
    } else if skipped_legacy == 0 {
        lines.push(owned("Aucun changement."));
        assert(views(lines@) =~= sync_head(a, rm, skipped_legacy as nat));
    } else {
        assert(views(lines@) =~= sync_head(a, rm, skipped_legacy as nat));
    }
    let ghost h = views(lines@);
    if skipped_legacy > 0 {
        let mut l = owned("*");
        push_u64(&mut l, skipped_legacy as u64);
        push_str(&mut l, " jeu(x) ignore(s) : pas encore de role Discord associe (recree-les via `/game-admin create`).*");
        let ghost lv = l@;
        lines.push(l);
        assert(views(lines@) =~= h.push(lv));
    }
    assert(views(lines@) =~= h + sync_legacy(skipped_legacy as nat));
    let ghost h2 = views(lines@);
    let follow = if active_games.len() == 0 {
        owned("\n**Tu ne suis aucun jeu actuellement.**")
    } else {
        let mut l = owned("\n**Tu suis actuellement (");
        push_u64(&mut l, active_games.len() as u64);
        push_str(&mut l, ") :** ");
        let rest = shown_list(active_games, 20);
        push_str(&mut l, rest.as_str());
        l
    };
    let ghost fv = follow@;
    assert(fv == sync_follow(views(active_games@)));
    lines.push(follow);
    assert(views(lines@) =~= h2.push(fv));
    assert(views(lines@) =~= sync_lines(a, rm, skipped_legacy as nat, views(active_games@)));
    join_texts(lines.as_slice(), "\n")
}

// ---------------------------------------------------------------------
// Commands
// ---------------------------------------------------------------------

/// What a `/game` or `/game-admin` command asks for.
#[derive(Debug, PartialEq, Eq, Structural, Clone, Copy)]
pub enum GameCommand {
    Create,
    Delete,
    Panel,
    Refresh,
    List,
    Join,
    Leave,
    Unknown,
}

/// The sub-command asked for, from the command's name and its first
/// option's name.
pub open spec fn route_spec(top: Seq<char>, sub: Seq<char>) -> GameCommand {
    if top == "game-admin"@ && sub == "create"@ {
        GameCommand::Create
    } else if top == "game-admin"@ && sub == "delete"@ {
        GameCommand::Delete
    } else if top == "game-admin"@ && sub == "panel"@ {
        GameCommand::Panel
    } else if top == "game-admin"@ && sub == "refresh"@ {
        GameCommand::Refresh
    } else if top == "game"@ && sub == "list"@ {
        GameCommand::List
    } else if top == "game"@ && sub == "join"@ {
        GameCommand::Join
    } else if top == "game"@ && sub == "leave"@ {
        GameCommand::Leave
    } else {
        GameCommand::Unknown
    }
}

/// The sub-command asked for.
pub fn route_game_command(top: &str, sub: &str) -> (r: GameCommand)
    ensures
        r == route_spec(top@, sub@),
{
    let admin = same_text(top, "game-admin");
    let public = same_text(top, "game");
    if admin && same_text(sub, "create") {
        GameCommand::Create
    } else if admin && same_text(sub, "delete") {
        GameCommand::Delete
    } else if admin && same_text(sub, "panel") {
        GameCommand::Panel
    } else if admin && same_text(sub, "refresh") {
        GameCommand::Refresh
    } else if public && same_text(sub, "list") {
        GameCommand::List
    } else if public && same_text(sub, "join") {
        GameCommand::Join
    } else if public && same_text(sub, "leave") {
        GameCommand::Leave
    } else {
        GameCommand::Unknown
    }
}

/// Line of a game in `/game list`.
pub open spec fn list_line(g: Game) -> Seq<char> {
    "- "@ + match g.emoji {
        Some(e) => e@,
        None => Seq::empty(),
    } + " **"@ + g.game_name@ + "**"@
}

/// Description of `/game list` (for a non-empty catalogue).
pub open spec fn list_description(games: Seq<Game>) -> Seq<char> {
    joined(Seq::new(games.len(), |i: int| list_line(games[i])), "\n"@)
        + "\n\n*Inscris-toi avec `/game join <nom>`*"@
}

/// Description of `/game list`.
pub fn games_list_description(games: &[Game]) -> (r: String)
    ensures
        r@ == list_description(games@),
{
    let ghost want = Seq::new(games@.len(), |i: int| list_line(games@[i]));
    let mut lines: Vec<String> = Vec::new();
    let mut i: usize = 0;
    while i < games.len()
        invariant
            i <= games@.len(),
            want == Seq::new(games@.len(), |i: int| list_line(games@[i])),
            views(lines@) == want.take(i as int),
        decreases games@.len() - i,
    {
        let g = &games[i];
        let mut l = owned("- ");
        let ghost h = l@;
        match &g.emoji {
            Some(e) => push_str(&mut l, e.as_str()),
            None => {
                assert(h + Seq::<char>::empty() =~= h);
            },
        }
        push_str(&mut l, " **");
        push_str(&mut l, g.game_name.as_str());
        push_str(&mut l, "**");
        let ghost before = views(lines@);
        let ghost lv = l@;
        lines.push(l);
        assert(lv =~= list_line(games@[i as int]));
        assert(views(lines@) =~= before.push(lv));
        assert(views(lines@) =~= want.take(i + 1));
        i = i + 1;
    }
    assert(want.take(games@.len() as int) =~= want);
    let mut s = join_texts(lines.as_slice(), "\n");
    push_str(&mut s, "\n\n*Inscris-toi avec `/game join <nom>`*");
    s
}

/// Description of the confirmation of `/game-admin create`.
pub open spec fn created_text(g: Game, role_id: u64) -> Seq<char> {
    "**"@ + g.game_name@ + "** "@ + match g.emoji {
        Some(e) => e@,
        None => Seq::empty(),
    } + " est maintenant disponible.\nCategorie : "@ + match g.category {
        Some(c) => c@,
        None => "(aucune)"@,
    } + "\nRole : <@&"@ + nat_text(role_id as nat) + ">\nLes joueurs peuvent s'inscrire avec `/game join "@
        + g.game_name@ + "` ou via le panneau."@
}

/// Description of the confirmation of `/game-admin create`, for the game
/// the API created and the role made for it.
pub fn created_game_description(g: &Game, role_id: u64) -> (r: String)
    ensures
        r@ == created_text(*g, role_id),
{
    let mut s = owned("**");
    push_str(&mut s, g.game_name.as_str());
    push_str(&mut s, "** ");
    let ghost h = s@;
    match &g.emoji {
        Some(e) => push_str(&mut s, e.as_str()),
        None => {
            assert(h + Seq::<char>::empty() =~= h);
        },
    }
    push_str(&mut s, " est maintenant disponible.\nCategorie : ");
    match &g.category {
        Some(c) => push_str(&mut s, c.as_str()),
        None => push_str(&mut s, "(aucune)"),
    }
    push_str(&mut s, "\nRole : <@&");
    push_u64(&mut s, role_id);
    push_str(&mut s, ">\nLes joueurs peuvent s'inscrire avec `/game join ");
    push_str(&mut s, g.game_name.as_str());
    push_str(&mut s, "` ou via le panneau.");
    s
}

/// The emoji given to `/game-admin create`: none when absent or blank, the
/// trimmed text when it reads as an emoji, refused otherwise.
pub open spec fn emoji_choice(raw: Option<Seq<char>>) -> Result<Option<Seq<char>>, ()> {
    match raw {
        None => Ok(None),
        Some(r) => {
            let t = crate::text::trim(r);
            if t.len() == 0 {
                Ok(None)
            } else if crate::reactions::reaction_of(t) is None {
                Err(())
            } else {
                Ok(Some(t))
            }
        },
    }
}

/// The emoji given to `/game-admin create`, checked; the error is the reply
/// to give.
pub fn validate_emoji(raw: Option<&str>) -> (r: Result<Option<String>, &'static str>)
    requires
        raw matches Some(e) ==> !crate::reactions::names_emoji_zero(crate::text::trim(e@)),
    ensures
        r matches Ok(o) ==> emoji_choice(opt_text(raw)) == Ok::<Option<Seq<char>>, ()>(opt_string(o)),
        r matches Err(m) ==> emoji_choice(opt_text(raw)) is Err && m@ == "Emoji invalide. Utilise un emoji unicode (ex. 🎮) ou un emoji serveur (ex. `<:name:123456>`)."@,
{
    match raw {
        None => Ok(None),
        Some(r) => {
            let t = crate::text::trimmed(r);
            if t.as_str().unicode_len() == 0 {
                return Ok(None);
            }
            if crate::reactions::parse_reaction_type(t.as_str()).is_none() {
                return Err("Emoji invalide. Utilise un emoji unicode (ex. 🎮) ou un emoji serveur (ex. `<:name:123456>`).");
            }
            Ok(Some(t))
        },
    }
}

/// Reply once a member joined a game.
pub fn join_reply(game_name: &str, role_id: u64) -> (r: String)
    ensures
        r@ == "Tu es inscrit a **"@ + game_name@ + "** ! Utilise <@&"@ + nat_text(role_id as nat)
            + "> pour pinger les joueurs."@,
{
    let mut s = owned("Tu es inscrit a **");
    push_str(&mut s, game_name);
    push_str(&mut s, "** ! Utilise <@&");
    push_u64(&mut s, role_id);
    push_str(&mut s, "> pour pinger les joueurs.");
    s
}

/// Reply once a member left a game.
pub fn leave_reply(game_name: &str) -> (r: String)
    ensures
        r@ == "Tu es desinscrit de **"@ + game_name@ + "**."@,
{
    let mut s = owned("Tu es desinscrit de **");
    push_str(&mut s, game_name);
    push_str(&mut s, "**.");
    s
}

/// Lower case of a text as std computes it (`str::to_lowercase`).
pub uninterp spec fn unicode_lower(s: Seq<char>) -> Seq<char>;

/// Lower case of a text (`str::to_lowercase`, Unicode rules).
#[verifier::external_body]
fn to_lower(s: &str) -> (r: String)
    ensures
        r@ == unicode_lower(s@),
{
    s.to_lowercase()
}

/// The panel of a category, categories compared in lower case (no category
/// matches only a panel without one).
pub open spec fn panel_matches(p: GamePanel, category: Option<Seq<char>>) -> bool {
    match (p.category, category) {
        (Some(a), Some(b)) => unicode_lower(a@) == unicode_lower(b),
        (None, None) => true,
        _ => false,
    }
}

/// Position of the first panel of the category.
pub fn find_panel_for_category(panels: &[GamePanel], category: Option<&str>) -> (r: Option<usize>)
    ensures
        r matches Some(i) ==> i < panels@.len() && panel_matches(panels@[i as int], opt_text(category))
            && forall|j: int| 0 <= j < i ==> !panel_matches(#[trigger] panels@[j], opt_text(category)),
        r is None ==> forall|j: int| 0 <= j < panels@.len() ==> !panel_matches(#[trigger] panels@[j], opt_text(category)),
{
    let want = match category {
        Some(c) => Some(to_lower(c)),
        None => None,
    };
    let mut i: usize = 0;
    while i < panels.len()
        invariant
            i <= panels@.len(),
            match want {
                Some(w) => category matches Some(c) && w@ == unicode_lower(c@),
                None => category is None,
            },
            forall|j: int| 0 <= j < i ==> !panel_matches(#[trigger] panels@[j], opt_text(category)),
        decreases panels@.len() - i,
    {
        let hit = match (&panels[i].category, &want) {
            (Some(a), Some(w)) => {
                let la = to_lower(a.as_str());
                same_text(la.as_str(), w.as_str())
            },
            (None, None) => true,
            _ => false,
        };
        if hit {
            return Some(i);
        }
        i = i + 1;
    }
    None
}

} // verus!
