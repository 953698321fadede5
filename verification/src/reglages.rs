//! The settings card of a game server (`/game parametres`): which settings
//! may be shown, how they are named and grouped, and in what order.

use vstd::prelude::*;
use vstd::string::*;

use crate::api_client::TemplateField;
use crate::config::{entry_views, GuildConfig};
use crate::order::{
    lemma_text_lt_asymmetric, lemma_text_lt_irreflexive, lemma_text_lt_total,
    lemma_text_lt_transitive, text_less, text_lt,
};
use crate::text::{
    ascii_lower, ascii_upper, contains_text, has_infix, lowercase, owned, same_text, trim,
    trimmed, uppercase, views,
};

verus! {

broadcast use vstd::seq_lib::group_to_multiset_ensures;

/// A key that holds the players' password, whatever its case.
pub open spec fn is_password_key_spec(key: Seq<char>) -> bool {
    let k = ascii_upper(key);
    k == "PASSWORD"@ || k == "SERVER_PASS"@ || k == "SERVER_PASSWORD"@ || k
        == "SERVERCONFIG_SERVERPASSWORD"@
}

/// The key holds the players' password.
pub fn is_player_password_key(key: &str) -> (r: bool)
    ensures
        r == is_password_key_spec(key@),
{
    let k = uppercase(key);
    let k = k.as_str();
    same_text(k, "PASSWORD") || same_text(k, "SERVER_PASS") || same_text(k, "SERVER_PASSWORD")
        || same_text(k, "SERVERCONFIG_SERVERPASSWORD")
}

/// The upper-cased key names an administration secret or privilege.
pub open spec fn names_a_secret(k: Seq<char>) -> bool {
    has_infix(k, "ADMIN"@) || has_infix(k, "RCON"@) || has_infix(k, "TOKEN"@) || has_infix(
        k,
        "SECRET"@,
    ) || has_infix(k, "PRIVATE_KEY"@) || has_infix(k, "API_KEY"@) || has_infix(k, "ACCESS_KEY"@)
        || has_infix(k, "OPERATOR"@) || has_infix(k, "OP_PERMISSION"@)
}

/// A setting that players may see: the players' password, or anything that
/// names no administration secret and is not the operators list.
pub open spec fn is_safe_option_spec(key: Seq<char>) -> bool {
    let k = ascii_upper(key);
    is_password_key_spec(k) || (!names_a_secret(k) && k != "OPS"@)
}

/// The setting may be shown to players.
pub fn is_safe_game_option(key: &str) -> (r: bool)
    ensures
        r == is_safe_option_spec(key@),
{
    let k = uppercase(key);
    let k = k.as_str();
    if is_player_password_key(k) {
        return true;
    }
    let secret = contains_text(k, "ADMIN") || contains_text(k, "RCON") || contains_text(k, "TOKEN")
        || contains_text(k, "SECRET") || contains_text(k, "PRIVATE_KEY") || contains_text(
        k,
        "API_KEY",
    ) || contains_text(k, "ACCESS_KEY") || contains_text(k, "OPERATOR") || contains_text(
        k,
        "OP_PERMISSION",
    );
    !secret && !same_text(k, "OPS")
}

/// Two keys that differ only by ASCII case (std `eq_ignore_ascii_case`).
pub open spec fn same_key(a: Seq<char>, b: Seq<char>) -> bool {
    ascii_lower(a) == ascii_lower(b)
}

/// First field of `schema`, from `i` on, describing `key`.
pub open spec fn field_from(schema: Seq<TemplateField>, key: Seq<char>, i: int) -> Option<int>
    decreases schema.len() - i,
{
    if i < 0 || i >= schema.len() {
        None
    } else if same_key(schema[i].key@, key) {
        Some(i)
    } else {
        field_from(schema, key, i + 1)
    }
}

/// First field of `schema` describing `key`.
pub open spec fn field_of(schema: Seq<TemplateField>, key: Seq<char>) -> Option<int> {
    field_from(schema, key, 0)
}

pub proof fn lemma_field_from(schema: Seq<TemplateField>, key: Seq<char>, i: int)
    requires
        0 <= i,
    ensures
        field_from(schema, key, i) matches Some(j) ==> i <= j < schema.len(),
    decreases schema.len() - i,
{
    if i < schema.len() && !same_key(schema[i].key@, key) {
        lemma_field_from(schema, key, i + 1);
    }
}

fn field_position(schema: &[TemplateField], key: &str) -> (r: Option<usize>)
    ensures
        r matches Some(j) ==> field_of(schema@, key@) == Some(j as int) && j < schema@.len(),
        r is None ==> field_of(schema@, key@) is None,
{
    let lk = lowercase(key);
    let mut i: usize = 0;
    while i < schema.len()
        invariant
            lk@ == ascii_lower(key@),
            i <= schema@.len(),
            field_of(schema@, key@) == field_from(schema@, key@, i as int),
        decreases schema@.len() - i,
    {
        let lf = lowercase(schema[i].key.as_str());
        if same_text(lf.as_str(), lk.as_str()) {
            return Some(i);
        }
        i = i + 1;
    }
    None
}

/// Name of a setting: the label its template gives it, else the raw key.
pub open spec fn setting_name(schema: Seq<TemplateField>, key: Seq<char>) -> Seq<char> {
    match field_of(schema, key) {
        Some(i) => schema[i].label@,
        None => key,
    }
}

/// Names a setting in French after the game's template; falls back on the
/// raw key when the template does not describe it.
pub fn nom_du_reglage(schema: &[TemplateField], key: &str) -> (r: String)
    ensures
        r@ == setting_name(schema@, key@),
{
    proof {
        lemma_field_from(schema@, key@, 0);
    }
    match field_position(schema, key) {
        Some(i) => schema[i].label.clone(),
        None => owned(key),
    }
}

/// Section of a setting: the group its template gives it when that group
/// is not blank, else the general section.
pub open spec fn setting_section(schema: Seq<TemplateField>, key: Seq<char>) -> Seq<char> {
    match field_of(schema, key) {
        Some(i) => match schema[i].group {
            Some(g) => if trim(g@).len() > 0 {
                g@
            } else {
                "Reglages generaux"@
            },
            None => "Reglages generaux"@,
        },
        None => "Reglages generaux"@,
    }
}

/// Section of a setting, to group the card.
pub fn section_du_reglage(schema: &[TemplateField], key: &str) -> (r: String)
    ensures
        r@ == setting_section(schema@, key@),
{
    proof {
        lemma_field_from(schema@, key@, 0);
    }
    match field_position(schema, key) {
        Some(i) => match &schema[i].group {
            Some(g) => {
                let t = trimmed(g.as_str());
                if t.as_str().is_empty() {
                    owned("Reglages generaux")
                } else {
                    g.clone()
                }
            },
            None => owned("Reglages generaux"),
        },
        None => owned("Reglages generaux"),
    }
}

/// A value as players read it: yes/no for booleans, a dash for nothing,
/// else the value without surrounding blanks.
pub open spec fn readable_value(v: Seq<char>) -> Seq<char> {
    let t = trim(v);
    let l = ascii_lower(t);
    if l == "true"@ || l == "1"@ {
        "Oui"@
    } else if l == "false"@ || l == "0"@ {
        "Non"@
    } else if l == ""@ {
        "—"@
    } else {
        t
    }
}

/// Renders a value readably: a raw `true` tells nobody anything.
pub fn valeur_lisible(value: &str) -> (r: String)
    ensures
        r@ == readable_value(value@),
{
    let t = trimmed(value);
    let l = lowercase(t.as_str());
    let l = l.as_str();
    if same_text(l, "true") || same_text(l, "1") {
        owned("Oui")
    } else if same_text(l, "false") || same_text(l, "0") {
        owned("Non")
    } else if same_text(l, "") {
        owned("—")
    } else {
        t
    }
}

/// Value shown for a setting: an empty password means free access.
pub open spec fn shown_value(key: Seq<char>, value: Seq<char>) -> Seq<char> {
    if is_password_key_spec(key) && trim(value).len() == 0 {
        "Aucun (accès libre)"@
    } else {
        readable_value(value)
    }
}

/// A line of the card, with the section it belongs to.
pub open spec fn setting_line(schema: Seq<TemplateField>, key: Seq<char>, value: Seq<char>) -> (
    Seq<char>,
    Seq<char>,
) {
    (
        setting_section(schema, key),
        "**"@ + setting_name(schema, key) + "** : `"@ + shown_value(key, value) + "`"@,
    )
}

/// The setting appears on the card.
pub open spec fn shown_setting(key: Seq<char>, with_password: bool) -> bool {
    is_safe_option_spec(key) && (with_password || !is_password_key_spec(key))
}

/// Lines of the card, in the order of the configuration.
pub open spec fn setting_lines(
    e: Seq<(Seq<char>, Seq<char>)>,
    schema: Seq<TemplateField>,
    with_password: bool,
) -> Seq<(Seq<char>, Seq<char>)>
    decreases e.len(),
{
    if e.len() == 0 {
        Seq::empty()
    } else {
        let prev = setting_lines(e.drop_last(), schema, with_password);
        if shown_setting(e.last().0, with_password) {
            prev.push(setting_line(schema, e.last().0, e.last().1))
        } else {
            prev
        }
    }
}

/// Order of the card: by section, then by text.
pub open spec fn line_lt(x: (Seq<char>, Seq<char>), y: (Seq<char>, Seq<char>)) -> bool {
    text_lt(x.0, y.0) || (x.0 == y.0 && text_lt(x.1, y.1))
}

/// Where a stable insertion puts `x` in `v`: before the first element that
/// comes strictly after it.
pub open spec fn insert_pos(v: Seq<(Seq<char>, Seq<char>)>, x: (Seq<char>, Seq<char>)) -> int
    decreases v.len(),
{
    if v.len() == 0 {
        0
    } else if line_lt(x, v[0]) {
        0
    } else {
        1 + insert_pos(v.drop_first(), x)
    }
}

/// Stable sort of the lines (std `sort_by`, which keeps equal elements in
/// their order).
pub open spec fn sort_lines(v: Seq<(Seq<char>, Seq<char>)>) -> Seq<(Seq<char>, Seq<char>)>
    decreases v.len(),
{
    if v.len() == 0 {
        Seq::empty()
    } else {
        let s = sort_lines(v.drop_last());
        s.insert(insert_pos(s, v.last()), v.last())
    }
}

/// Header of a section.
pub open spec fn section_header(section: Seq<char>) -> Seq<char> {
    "__**"@ + section + "**__"@
}

/// Sorted lines with a header each time the section changes.
pub open spec fn grouped(v: Seq<(Seq<char>, Seq<char>)>, current: Seq<char>) -> Seq<Seq<char>>
    decreases v.len(),
{
    if v.len() == 0 {
        Seq::empty()
    } else {
        let head = if v[0].0 != current {
            seq![section_header(v[0].0)]
        } else {
            Seq::empty()
        };
        head + seq![v[0].1] + grouped(v.drop_first(), v[0].0)
    }
}

/// The whole card.
pub open spec fn card_lines(
    e: Seq<(Seq<char>, Seq<char>)>,
    schema: Seq<TemplateField>,
    with_password: bool,
) -> Seq<Seq<char>> {
    grouped(sort_lines(setting_lines(e, schema, with_password)), Seq::empty())
}

pub proof fn lemma_insert_pos_bounds(v: Seq<(Seq<char>, Seq<char>)>, x: (Seq<char>, Seq<char>))
    ensures
        0 <= insert_pos(v, x) <= v.len(),
    decreases v.len(),
{
    if v.len() > 0 && !line_lt(x, v[0]) {
        lemma_insert_pos_bounds(v.drop_first(), x);
    }
}

pub proof fn lemma_sort_lines_len(v: Seq<(Seq<char>, Seq<char>)>)
    ensures
        sort_lines(v).len() == v.len(),
    decreases v.len(),
{
    if v.len() > 0 {
        lemma_sort_lines_len(v.drop_last());
        lemma_insert_pos_bounds(sort_lines(v.drop_last()), v.last());
    }
}

fn line_less(x: &(String, String), y: &(String, String)) -> (r: bool)
    ensures
        r == line_lt((x.0@, x.1@), (y.0@, y.1@)),
{
    text_less(x.0.as_str(), y.0.as_str()) || (same_text(x.0.as_str(), y.0.as_str()) && text_less(
        x.1.as_str(),
        y.1.as_str(),
    ))
}

fn insertion_position(v: &Vec<(String, String)>, x: &(String, String)) -> (r: usize)
    ensures
        r == insert_pos(entry_views(v@), (x.0@, x.1@)),
        r <= v@.len(),
{
    let ghost xv = (x.0@, x.1@);
    let ghost full = entry_views(v@);
    let mut i: usize = 0;
    assert(full.skip(0) =~= full);
    while i < v.len()
        invariant
            full == entry_views(v@),
            full.len() == v@.len(),
            xv == (x.0@, x.1@),
            i <= v@.len(),
            insert_pos(full, xv) == i + insert_pos(full.skip(i as int), xv),
        decreases v@.len() - i,
    {
        let ghost rest = full.skip(i as int);
        assert(rest[0] == (v@[i as int].0@, v@[i as int].1@));
        if line_less(x, &v[i]) {
            return i;
        }
        assert(rest.drop_first() =~= full.skip(i + 1));
        i = i + 1;
    }
    i
}

/// The lines of the card, unsorted.
fn collect_lines(config: &GuildConfig, schema: &[TemplateField], with_password: bool) -> (r: Vec<(String, String)>)
    ensures
        entry_views(r@) == setting_lines(config@, schema@, with_password),
{
    let n = config.len();
    let mut lines: Vec<(String, String)> = Vec::new();
    let mut i: usize = 0;
    assert(config@.subrange(0, 0) =~= Seq::<(Seq<char>, Seq<char>)>::empty());
    assert(entry_views(lines@) =~= Seq::<(Seq<char>, Seq<char>)>::empty());
    while i < n
        invariant
            n == config@.len(),
            i <= n,
            entry_views(lines@) == setting_lines(config@.subrange(0, i as int), schema@, with_password),
        decreases n - i,
    {
        let (key, value) = config.entry(i);
        let ghost pre = config@.subrange(0, i + 1);
        assert(pre.drop_last() =~= config@.subrange(0, i as int));
        assert(pre.last() == config@[i as int]);
        let key = key.as_str();
        let keep = is_safe_game_option(key) && (with_password || !is_player_password_key(key));
        if keep {
            let shown = if is_player_password_key(key) && trimmed(value.as_str()).as_str().is_empty() {
                owned("Aucun (accès libre)")
            } else {
                valeur_lisible(value.as_str())
            };
            let mut texte = owned("**");
            texte.append(nom_du_reglage(schema, key).as_str());
            texte.append("** : `");
            texte.append(shown.as_str());
            texte.append("`");
            let section = section_du_reglage(schema, key);
            let ghost before = entry_views(lines@);
            lines.push((section, texte));
            assert(entry_views(lines@) =~= before.push(setting_line(schema@, key@, value@)));
        }
        i = i + 1;
    }
    assert(config@.subrange(0, n as int) =~= config@);
    lines
}

/// Stable insertion sort of the lines.
fn sort_card(lines: &Vec<(String, String)>) -> (r: Vec<(String, String)>)
    ensures
        entry_views(r@) == sort_lines(entry_views(lines@)),
{
    let ghost lv = entry_views(lines@);
    let mut sorted: Vec<(String, String)> = Vec::new();
    let mut i: usize = 0;
    assert(lv.subrange(0, 0) =~= Seq::<(Seq<char>, Seq<char>)>::empty());
    assert(entry_views(sorted@) =~= Seq::<(Seq<char>, Seq<char>)>::empty());
    while i < lines.len()
        invariant
            lv == entry_views(lines@),
            i <= lines@.len(),
            entry_views(sorted@) == sort_lines(lv.subrange(0, i as int)),
        decreases lines@.len() - i,
    {
        let x = (lines[i].0.clone(), lines[i].1.clone());
        let ghost pre = lv.subrange(0, i + 1);
        assert(pre.drop_last() =~= lv.subrange(0, i as int));
        assert(pre.last() == (x.0@, x.1@));
        let pos = insertion_position(&sorted, &x);
        let ghost before = entry_views(sorted@);
        sorted.insert(pos, x);
        assert(entry_views(sorted@) =~= before.insert(pos as int, pre.last()));
        i = i + 1;
    }
    assert(lv.subrange(0, lines@.len() as int) =~= lv);
    sorted
}

/// The sorted lines with their section headers.
fn group_card(sorted: &Vec<(String, String)>) -> (r: Vec<String>)
    ensures
        views(r@) == grouped(entry_views(sorted@), Seq::empty()),
{
    let ghost sv = entry_views(sorted@);
    let mut out: Vec<String> = Vec::new();
    let mut current = String::new();
    let mut i: usize = 0;
    assert(sv.skip(0) =~= sv);
    assert(views(out@) =~= Seq::<Seq<char>>::empty());
    while i < sorted.len()
        invariant
            sv == entry_views(sorted@),
            i <= sorted@.len(),
            views(out@) + grouped(sv.skip(i as int), current@) == grouped(sv, Seq::empty()),
        decreases sorted@.len() - i,
    {
        let ghost rest = sv.skip(i as int);
        assert(rest[0] == (sorted@[i as int].0@, sorted@[i as int].1@));
        assert(rest.drop_first() =~= sv.skip(i + 1));
        let ghost before = views(out@);
        let ghost old_cur = current@;
        let section = &sorted[i].0;
        let texte = &sorted[i].1;
        if !same_text(section.as_str(), current.as_str()) {
            current = section.clone();
            let mut header = owned("__**");
            header.append(current.as_str());
            header.append("**__");
            out.push(header);
            assert(views(out@) + seq![texte@] =~= before + (seq![section_header(rest[0].0)] + seq![rest[0].1]));
        } else {
            assert(views(out@) + seq![texte@] =~= before + (Seq::<Seq<char>>::empty() + seq![rest[0].1]));
        }
        out.push(texte.clone());
        assert(current@ == rest[0].0);
        assert(views(out@) + grouped(sv.skip(i + 1), current@) =~= before + grouped(rest, old_cur));
        i = i + 1;
    }
    assert(sv.skip(sorted@.len() as int) =~= Seq::<(Seq<char>, Seq<char>)>::empty());
    assert(views(out@) + Seq::<Seq<char>>::empty() =~= views(out@));
    out
}

/// Lines of the settings card, grouped by section and sorted by section then
/// label, so that it reads like the configuration page; administration
/// secrets never appear, and the players' password only when
/// `avec_mot_de_passe` holds.
pub fn lignes_reglages(config: &GuildConfig, schema: &[TemplateField], avec_mot_de_passe: bool) -> (r: Vec<String>)
    ensures
        views(r@) == card_lines(config@, schema@, avec_mot_de_passe),
{
    let lines = collect_lines(config, schema, avec_mot_de_passe);
    let sorted = sort_card(&lines);
    group_card(&sorted)
}

/// Settings shown in the private channel of the registered players: the
/// password included.
pub fn public_game_options(config: &GuildConfig, schema: &[TemplateField]) -> (r: Vec<String>)
    ensures
        views(r@) == card_lines(config@, schema@, true),
{
    lignes_reglages(config, schema, true)
}

/// Settings shown outside the private channel (registration channel, seen
/// by the whole game role): the same card without the password.
pub fn registration_options(config: &GuildConfig, schema: &[TemplateField]) -> (r: Vec<String>)
    ensures
        views(r@) == card_lines(config@, schema@, false),
{
    lignes_reglages(config, schema, false)
}


// ---------------------------------------------------------------------
// Laws of the card
// ---------------------------------------------------------------------

proof fn lemma_line_lt_order(x: (Seq<char>, Seq<char>), y: (Seq<char>, Seq<char>), z: (Seq<char>, Seq<char>))
    ensures
        !line_lt(x, x),
        line_lt(x, y) && line_lt(y, z) ==> line_lt(x, z),
        line_lt(x, y) ==> !line_lt(y, x),
        x == y || line_lt(x, y) || line_lt(y, x),
{
    lemma_text_lt_irreflexive(x.0);
    lemma_text_lt_irreflexive(x.1);
    lemma_text_lt_irreflexive(y.0);
    lemma_text_lt_total(x.0, y.0);
    lemma_text_lt_total(x.1, y.1);
    if line_lt(x, y) && line_lt(y, z) {
        if text_lt(x.0, y.0) && text_lt(y.0, z.0) {
            lemma_text_lt_transitive(x.0, y.0, z.0);
        }
        if x.0 == y.0 && y.0 == z.0 {
            lemma_text_lt_transitive(x.1, y.1, z.1);
        }
    }
    if line_lt(x, y) && line_lt(y, x) {
        if text_lt(x.0, y.0) {
            lemma_text_lt_asymmetric(x.0, y.0);
        } else {
            lemma_text_lt_asymmetric(x.1, y.1);
        }
    }
}

proof fn lemma_insert_pos(v: Seq<(Seq<char>, Seq<char>)>, x: (Seq<char>, Seq<char>))
    ensures
        0 <= insert_pos(v, x) <= v.len(),
        forall|k: int| 0 <= k < insert_pos(v, x) ==> !line_lt(x, #[trigger] v[k]),
        insert_pos(v, x) < v.len() ==> line_lt(x, v[insert_pos(v, x)]),
    decreases v.len(),
{
    if v.len() > 0 && !line_lt(x, v[0]) {
        lemma_insert_pos(v.drop_first(), x);
        assert forall|k: int| 0 <= k < insert_pos(v, x) implies !line_lt(x, #[trigger] v[k]) by {
            if k > 0 {
                assert(v[k] == v.drop_first()[k - 1]);
            }
        }
    }
}

/// The lines are in order: no line comes strictly before an earlier one.
pub open spec fn lines_sorted(s: Seq<(Seq<char>, Seq<char>)>) -> bool {
    forall|i: int, j: int| 0 <= i < j < s.len() ==> !line_lt(#[trigger] s[j], #[trigger] s[i])
}

/// The sort of the card orders its lines by section then by text.
pub proof fn sort_lines_is_sorted(v: Seq<(Seq<char>, Seq<char>)>)
    ensures
        lines_sorted(sort_lines(v)),
    decreases v.len(),
{
    if v.len() > 0 {
        let s = sort_lines(v.drop_last());
        let x = v.last();
        sort_lines_is_sorted(v.drop_last());
        lemma_insert_pos(s, x);
        let p = insert_pos(s, x);
        let r = s.insert(p, x);
        assert forall|i: int, j: int| 0 <= i < j < r.len() implies !line_lt(#[trigger] r[j], #[trigger] r[i]) by {
            if j < p {
                assert(r[i] == s[i] && r[j] == s[j]);
            } else if j == p {
                assert(r[i] == s[i] && r[j] == x);
            } else if i == p {
                assert(r[j] == s[j - 1]);
                lemma_line_lt_order(s[j - 1], x, s[p]);
                if j - 1 > p {
                    lemma_line_lt_order(s[j - 1], s[p], x);
                    assert(!line_lt(s[j - 1], s[p]));
                }
            } else if i > p {
                assert(r[i] == s[i - 1] && r[j] == s[j - 1]);
            } else {
                assert(r[i] == s[i] && r[j] == s[j - 1]);
            }
        }
    }
}

/// The sort of the card neither loses nor adds a line.
pub proof fn sort_lines_is_permutation(v: Seq<(Seq<char>, Seq<char>)>)
    ensures
        sort_lines(v).to_multiset() == v.to_multiset(),
    decreases v.len(),
{
    if v.len() > 0 {
        let s = sort_lines(v.drop_last());
        let x = v.last();
        sort_lines_is_permutation(v.drop_last());
        lemma_insert_pos(s, x);
        let p = insert_pos(s, x);
        let r = s.insert(p, x);
        assert(r.remove(p) =~= s);
        assert(r.to_multiset().remove(x) =~= s.to_multiset());
        assert(r.contains(x)) by {
            assert(r[p] == x);
        }
        assert(r.to_multiset() =~= s.to_multiset().insert(x));
        assert(v =~= v.drop_last().push(x));
    }
}

/// The configuration without the players' password.
pub open spec fn without_passwords(e: Seq<(Seq<char>, Seq<char>)>) -> Seq<(Seq<char>, Seq<char>)>
    decreases e.len(),
{
    if e.len() == 0 {
        Seq::empty()
    } else if is_password_key_spec(e.last().0) {
        without_passwords(e.drop_last())
    } else {
        without_passwords(e.drop_last()).push(e.last())
    }
}

/// The card of the registration channel is the private card of the same
/// configuration with the password taken out: the password never leaves the
/// private channel of the registered players.
pub proof fn registration_card_hides_the_password(
    e: Seq<(Seq<char>, Seq<char>)>,
    schema: Seq<TemplateField>,
)
    ensures
        card_lines(e, schema, false) == card_lines(without_passwords(e), schema, true),
{
    lemma_lines_without_passwords(e, schema);
}

proof fn lemma_lines_without_passwords(e: Seq<(Seq<char>, Seq<char>)>, schema: Seq<TemplateField>)
    ensures
        setting_lines(e, schema, false) == setting_lines(without_passwords(e), schema, true),
    decreases e.len(),
{
    if e.len() > 0 {
        lemma_lines_without_passwords(e.drop_last(), schema);
        let w = without_passwords(e.drop_last());
        if !is_password_key_spec(e.last().0) {
            assert(w.push(e.last()).drop_last() =~= w);
        }
    }
}

/// `l` is the line of some setting of `e` that names no administration
/// secret.
pub open spec fn line_of_safe_setting(
    e: Seq<(Seq<char>, Seq<char>)>,
    schema: Seq<TemplateField>,
    l: (Seq<char>, Seq<char>),
) -> bool {
    exists|k: int|
        0 <= k < e.len() && is_safe_option_spec(#[trigger] e[k].0) && l == setting_line(
            schema,
            e[k].0,
            e[k].1,
        )
}

/// Every line of the card comes from a setting that names no administration
/// secret.
pub proof fn card_shows_no_secret(
    e: Seq<(Seq<char>, Seq<char>)>,
    schema: Seq<TemplateField>,
    with_password: bool,
)
    ensures
        forall|i: int|
            0 <= i < setting_lines(e, schema, with_password).len() ==> line_of_safe_setting(
                e,
                schema,
                #[trigger] setting_lines(e, schema, with_password)[i],
            ),
    decreases e.len(),
{
    if e.len() > 0 {
        let d = e.drop_last();
        card_shows_no_secret(d, schema, with_password);
        let prev = setting_lines(d, schema, with_password);
        let all = setting_lines(e, schema, with_password);
        assert forall|i: int| 0 <= i < all.len() implies line_of_safe_setting(e, schema, #[trigger] all[i]) by {
            if i < prev.len() {
                assert(line_of_safe_setting(d, schema, prev[i]));
                let k = choose|k: int|
                    0 <= k < d.len() && is_safe_option_spec(#[trigger] d[k].0) && prev[i]
                        == setting_line(schema, d[k].0, d[k].1);
                assert(e[k] == d[k]);
                assert(all[i] == prev[i]);
            } else {
                let k = e.len() - 1;
                assert(e[k] == e.last());
            }
        }
    }
}

} // verus!
