//! Counter channels ("En jeu : 7", "Serveurs actifs : 2"): what is
//! counted, how the name is written, and which channels are renamed.

use vstd::prelude::*;
use vstd::string::*;

use crate::api_client::GameServer;
use crate::config::{lookup, GuildConfig};
use crate::text::{
    ascii_lower, chars_of, contains_text, has_infix, int_text, lowercase, owned, parse_u64,
    parse_u64_spec, replace_all, replace_text, same_text, text_of_range, trim, trimmed,
};

verus! {

/// Module of these settings in the guild configuration.
pub const MODULE_BOT_NAME: &'static str = "game-portal";

/// Seconds between two refreshes: two renames per ten minutes is all that
/// Discord allows per channel.
pub const PERIODE_SECONDES: u64 = 300;

/// Kind of a member's activity on Discord.
#[derive(Debug, Clone, Copy, PartialEq, Eq, Structural)]
pub enum ActivityKind {
    Playing,
    Streaming,
    Listening,
    Watching,
    Custom,
    Competing,
    Other,
}

/// The member is playing: one of the activities is a game (a status, music
/// or a stream is not).
pub open spec fn playing(activites: Seq<ActivityKind>) -> bool {
    activites.contains(ActivityKind::Playing)
}

/// Is the member playing?
pub fn est_en_jeu(activites: &[ActivityKind]) -> (r: bool)
    ensures
        r == playing(activites@),
{
    let mut i: usize = 0;
    while i < activites.len()
        invariant
            i <= activites@.len(),
            forall|j: int| 0 <= j < i ==> activites@[j] != ActivityKind::Playing,
        decreases activites@.len() - i,
    {
        if activites[i] == ActivityKind::Playing {
            assert(activites@[i as int] == ActivityKind::Playing);
            return true;
        }
        i = i + 1;
    }
    false
}

/// The operator asks for the presence intent: the value, trimmed and in
/// lower case, is `1`, `true`, `yes` or `oui`; absent means no.
pub open spec fn presence_asked(value: Option<Seq<char>>) -> bool {
    match value {
        Some(v) => {
            let w = ascii_lower(trim(v));
            w == "1"@ || w == "true"@ || w == "yes"@ || w == "oui"@
        },
        None => false,
    }
}

/// Does the operator ask for the presence intent? `value` is the setting
/// `NEXUS_PRESENCE_INTENT` of the environment.
pub fn intent_presence_demande(value: Option<&str>) -> (r: bool)
    ensures
        r == presence_asked(crate::text::opt_text(value)),
{
    match value {
        Some(v) => {
            let t = trimmed(v);
            let w = lowercase(t.as_str());
            let w = w.as_str();
            same_text(w, "1") || same_text(w, "true") || same_text(w, "yes") || same_text(w, "oui")
        },
        None => false,
    }
}

/// What the cache says of a member, for the counters.
#[derive(Debug, Clone, Copy, PartialEq, Eq, Structural)]
pub struct MemberPresence {
    /// Known as a member and not a bot.
    pub human: bool,
    /// Playing, by its activities.
    pub playing: bool,
    /// In a voice channel of the guild.
    pub in_voice: bool,
}

/// Members that count as playing: humans with a game going.
pub open spec fn count_playing(v: Seq<MemberPresence>) -> nat
    decreases v.len(),
{
    if v.len() == 0 {
        0
    } else {
        count_playing(v.drop_last()) + if v.last().human && v.last().playing { 1nat } else { 0nat }
    }
}

/// Members that play together: humans with a game going, in voice.
pub open spec fn count_together(v: Seq<MemberPresence>) -> nat
    decreases v.len(),
{
    if v.len() == 0 {
        0
    } else {
        count_together(v.drop_last()) + if v.last().human && v.last().playing && v.last().in_voice {
            1nat
        } else {
            0nat
        }
    }
}

proof fn lemma_counts_bounded(v: Seq<MemberPresence>)
    ensures
        count_playing(v) <= v.len(),
        count_together(v) <= v.len(),
    decreases v.len(),
{
    if v.len() > 0 {
        lemma_counts_bounded(v.drop_last());
    }
}

/// Members of the guild who play at something (bots left out).
pub fn membres_en_activite(presences: &[MemberPresence]) -> (r: i64)
    requires
        presences@.len() <= i64::MAX,
    ensures
        r == count_playing(presences@),
{
    let mut n: i64 = 0;
    let mut i: usize = 0;
    while i < presences.len()
        invariant
            i <= presences@.len() <= i64::MAX,
            n == count_playing(presences@.take(i as int)),
        decreases presences@.len() - i,
    {
        assert(presences@.take(i + 1).drop_last() =~= presences@.take(i as int));
        proof {
            lemma_counts_bounded(presences@.take(i as int));
        }
        if presences[i].human && presences[i].playing {
            n = n + 1;
        }
        i = i + 1;
    }
    assert(presences@.take(presences@.len() as int) =~= presences@);
    n
}

/// Members who play and are in voice (bots left out).
pub fn membres_en_jeu_et_en_vocal(presences: &[MemberPresence]) -> (r: i64)
    requires
        presences@.len() <= i64::MAX,
    ensures
        r == count_together(presences@),
{
    let mut n: i64 = 0;
    let mut i: usize = 0;
    while i < presences.len()
        invariant
            i <= presences@.len() <= i64::MAX,
            n == count_together(presences@.take(i as int)),
        decreases presences@.len() - i,
    {
        assert(presences@.take(i + 1).drop_last() =~= presences@.take(i as int));
        proof {
            lemma_counts_bounded(presences@.take(i as int));
        }
        if presences[i].human && presences[i].playing && presences[i].in_voice {
            n = n + 1;
        }
        i = i + 1;
    }
    assert(presences@.take(presences@.len() as int) =~= presences@);
    n
}

/// What the counters show.
#[derive(Debug, Clone, Copy, PartialEq, Eq, Structural)]
pub struct Releve {
    pub joueurs: i64,
    pub serveurs: i64,
}

impl Default for Releve {
    fn default() -> (r: Self)
        ensures
            r == (Releve { joueurs: 0, serveurs: 0 }),
    {
        Releve { joueurs: 0, serveurs: 0 }
    }
}

/// The server is online.
pub open spec fn online(s: GameServer) -> bool {
    s.status@ == "running"@
}

/// Players on the online servers, a negative count read as zero.
pub open spec fn players_online(v: Seq<GameServer>) -> int
    decreases v.len(),
{
    if v.len() == 0 {
        0
    } else {
        players_online(v.drop_last()) + if online(v.last()) && v.last().last_player_count > 0 {
            v.last().last_player_count as int
        } else {
            0
        }
    }
}

/// Servers online.
pub open spec fn servers_online(v: Seq<GameServer>) -> nat
    decreases v.len(),
{
    if v.len() == 0 {
        0
    } else {
        servers_online(v.drop_last()) + if online(v.last()) { 1nat } else { 0nat }
    }
}

proof fn lemma_players_monotone(v: Seq<GameServer>, i: int)
    requires
        0 <= i <= v.len(),
    ensures
        0 <= players_online(v.take(i)) <= players_online(v),
        servers_online(v.take(i)) <= i,
    decreases v.len() - i,
{
    if i < v.len() {
        lemma_players_monotone(v, i + 1);
        assert(v.take(i + 1).drop_last() =~= v.take(i));
        lemma_players_nonneg(v.take(i));
        assert(players_online(v.take(i + 1)) >= players_online(v.take(i)));
    } else {
        assert(v.take(i) =~= v);
        lemma_players_nonneg(v);
    }
    lemma_servers_bounded(v.take(i));
}

proof fn lemma_players_nonneg(v: Seq<GameServer>)
    ensures
        players_online(v) >= 0,
    decreases v.len(),
{
    if v.len() > 0 {
        lemma_players_nonneg(v.drop_last());
    }
}

proof fn lemma_servers_bounded(v: Seq<GameServer>)
    ensures
        servers_online(v) <= v.len(),
    decreases v.len(),
{
    if v.len() > 0 {
        lemma_servers_bounded(v.drop_last());
    }
}

/// Counts what really runs: only servers online count, and their players.
pub fn relever(serveurs: &[GameServer]) -> (r: Releve)
    requires
        players_online(serveurs@) <= i64::MAX,
        serveurs@.len() <= i64::MAX,
    ensures
        r.joueurs == players_online(serveurs@),
        r.serveurs == servers_online(serveurs@),
{
    let mut joueurs: i64 = 0;
    let mut n: i64 = 0;
    let mut i: usize = 0;
    while i < serveurs.len()
        invariant
            i <= serveurs@.len() <= i64::MAX,
            players_online(serveurs@) <= i64::MAX,
            joueurs == players_online(serveurs@.take(i as int)),
            n == servers_online(serveurs@.take(i as int)),
        decreases serveurs@.len() - i,
    {
        assert(serveurs@.take(i + 1).drop_last() =~= serveurs@.take(i as int));
        assert(serveurs@.take(i + 1).last() == serveurs@[i as int]);
        proof {
            lemma_players_monotone(serveurs@, i + 1);
            lemma_players_monotone(serveurs@, i as int);
        }
        let s = &serveurs[i];
        if same_text(s.status.as_str(), "running") {
            if s.last_player_count > 0 {
                joueurs = joueurs + s.last_player_count as i64;
            }
            n = n + 1;
        }
        i = i + 1;
    }
    assert(serveurs@.take(serveurs@.len() as int) =~= serveurs@);
    Releve { joueurs, serveurs: n }
}

/// Name of a counter channel: the number put in place of each `{count}`,
/// cut at 100 characters as Discord does; none for a format without the
/// marker.
pub open spec fn channel_name(format: Seq<char>, valeur: i64) -> Option<Seq<char>> {
    if !has_infix(format, "{count}"@) {
        None
    } else {
        let nom = replace_all(format, "{count}"@, int_text(valeur as int));
        Some(if nom.len() <= 100 { nom } else { nom.take(100) })
    }
}

/// Puts the number in the format chosen by the guild.
pub fn nom_du_salon(format: &str, valeur: i64) -> (r: Option<String>)
    ensures
        crate::text::opt_string(r) == channel_name(format@, valeur),
{
    if !contains_text(format, "{count}") {
        return None;
    }
    let nombre = crate::text::i64_text(valeur);
    proof {
        reveal_strlit("{count}");
    }
    let nom = replace_text(format, "{count}", nombre.as_str());
    let v = chars_of(nom.as_str());
    let n = if v.len() <= 100 { v.len() } else { 100 };
    let r = text_of_range(&v, 0, n);
    assert(v@.subrange(0, v@.len() as int) =~= v@);
    assert(v@.subrange(0, 100) =~= v@.take(100));
    Some(r)
}

/// Channel stored under `key`: the value trimmed, not empty, read as a
/// number.
pub open spec fn configured_channel(cfg: Seq<(Seq<char>, Seq<char>)>, key: Seq<char>) -> Option<u64> {
    match lookup(cfg, key) {
        Some(v) => if trim(v).len() == 0 { None } else { parse_u64_spec(trim(v)) },
        None => None,
    }
}

/// Channel stored under `cle`.
pub fn salon_configure(cfg: &GuildConfig, cle: &str) -> (r: Option<u64>)
    requires
        cfg.wf(),
    ensures
        r == configured_channel(cfg@, cle@),
{
    match cfg.get(cle) {
        Some(v) => {
            let t = trimmed(v.as_str());
            if t.as_str().unicode_len() == 0 {
                None
            } else {
                parse_u64(t.as_str())
            }
        },
        None => None,
    }
}

/// Format stored under `key`, trimmed, or `default` when absent or blank.
pub open spec fn configured_format(cfg: Seq<(Seq<char>, Seq<char>)>, key: Seq<char>, default: Seq<char>) -> Seq<char> {
    match lookup(cfg, key) {
        Some(v) => if trim(v).len() == 0 { default } else { trim(v) },
        None => default,
    }
}

/// Format stored under `cle`, or `defaut`.
pub fn format_configure(cfg: &GuildConfig, cle: &str, defaut: &str) -> (r: String)
    requires
        cfg.wf(),
    ensures
        r@ == configured_format(cfg@, cle@, defaut@),
{
    match cfg.get(cle) {
        Some(v) => {
            let t = trimmed(v.as_str());
            if t.as_str().unicode_len() == 0 {
                owned(defaut)
            } else {
                t
            }
        },
        None => owned(defaut),
    }
}

/// The renames of one refresh, in order: the counter of members playing
/// together, the counter of members playing, then (when the servers could be
/// read) the players and the servers online. A counter is renamed when its
/// channel is set, its number is known and its format holds the marker.
pub open spec fn rename_plan(
    cfg: Seq<(Seq<char>, Seq<char>)>,
    ensemble: Option<i64>,
    activite: Option<i64>,
    releve: Option<Releve>,
) -> Seq<(u64, Seq<char>)> {
    let one = |key: Seq<char>, fkey: Seq<char>, default: Seq<char>, value: Option<i64>|
        match (configured_channel(cfg, key), value) {
            (Some(c), Some(n)) => match channel_name(configured_format(cfg, fkey, default), n) {
                Some(name) => seq![(c, name)],
                None => Seq::<(u64, Seq<char>)>::empty(),
            },
            _ => Seq::<(u64, Seq<char>)>::empty(),
        };
    one("ingame_voice_counter_channel_id"@, "ingame_voice_counter_format"@, "🎧 Ensemble : {count}"@, ensemble)
        + one("activity_counter_channel_id"@, "activity_counter_format"@, "🕹️ En partie : {count}"@, activite)
        + one("players_counter_channel_id"@, "players_counter_format"@, "🎮 En jeu : {count}"@,
            match releve { Some(r) => Some(r.joueurs), None => None })
        + one("servers_counter_channel_id"@, "servers_counter_format"@, "🖥️ Serveurs actifs : {count}"@,
            match releve { Some(r) => Some(r.serveurs), None => None })
}

/// The rename of one counter channel for the number `n`: its channel, set
/// under `key`, named with its format (under `fkey`, `default` otherwise),
/// when both can be had.
pub open spec fn counter_rename(
    cfg: Seq<(Seq<char>, Seq<char>)>,
    key: Seq<char>,
    fkey: Seq<char>,
    default: Seq<char>,
    n: i64,
) -> Seq<(u64, Seq<char>)> {
    match (configured_channel(cfg, key), channel_name(configured_format(cfg, fkey, default), n)) {
        (Some(c), Some(name)) => seq![(c, name)],
        _ => Seq::empty(),
    }
}

/// Each counter shows its own number: the counter of members playing
/// together takes the number of members playing in voice, the counter of
/// members playing the number of members playing, the players and servers
/// counters the players and servers online; an unknown number renames
/// nothing; and the renames of one refresh are those of each number alone,
/// in that order.
pub proof fn each_counter_shows_its_own_number(
    cfg: Seq<(Seq<char>, Seq<char>)>,
    ensemble: Option<i64>,
    activite: Option<i64>,
    releve: Option<Releve>,
    n: i64,
    m: i64,
)
    ensures
        rename_plan(cfg, Some(n), None, None) == counter_rename(
            cfg,
            "ingame_voice_counter_channel_id"@,
            "ingame_voice_counter_format"@,
            "🎧 Ensemble : {count}"@,
            n,
        ),
        rename_plan(cfg, None, Some(n), None) == counter_rename(
            cfg,
            "activity_counter_channel_id"@,
            "activity_counter_format"@,
            "🕹️ En partie : {count}"@,
            n,
        ),
        rename_plan(cfg, None, None, Some(Releve { joueurs: n, serveurs: m })) == counter_rename(
            cfg,
            "players_counter_channel_id"@,
            "players_counter_format"@,
            "🎮 En jeu : {count}"@,
            n,
        ) + counter_rename(
            cfg,
            "servers_counter_channel_id"@,
            "servers_counter_format"@,
            "🖥️ Serveurs actifs : {count}"@,
            m,
        ),
        rename_plan(cfg, None, None, None).len() == 0,
        rename_plan(cfg, ensemble, activite, releve) == rename_plan(cfg, ensemble, None, None) + rename_plan(
            cfg,
            None,
            activite,
            None,
        ) + rename_plan(cfg, None, None, releve),
{
    let e = Seq::<(u64, Seq<char>)>::empty();
    assert(rename_plan(cfg, Some(n), None, None) =~= counter_rename(
        cfg,
        "ingame_voice_counter_channel_id"@,
        "ingame_voice_counter_format"@,
        "🎧 Ensemble : {count}"@,
        n,
    ));
    assert(rename_plan(cfg, None, Some(n), None) =~= counter_rename(
        cfg,
        "activity_counter_channel_id"@,
        "activity_counter_format"@,
        "🕹️ En partie : {count}"@,
        n,
    ));
    assert(rename_plan(cfg, None, None, Some(Releve { joueurs: n, serveurs: m })) =~= counter_rename(
        cfg,
        "players_counter_channel_id"@,
        "players_counter_format"@,
        "🎮 En jeu : {count}"@,
        n,
    ) + counter_rename(
        cfg,
        "servers_counter_channel_id"@,
        "servers_counter_format"@,
        "🖥️ Serveurs actifs : {count}"@,
        m,
    ));
    assert(rename_plan(cfg, None, None, None) =~= e);
    assert(rename_plan(cfg, ensemble, activite, releve) =~= rename_plan(cfg, ensemble, None, None)
        + rename_plan(cfg, None, activite, None) + rename_plan(cfg, None, None, releve));
}

/// Some counter channel is set.
pub open spec fn any_counter(cfg: Seq<(Seq<char>, Seq<char>)>) -> bool {
    configured_channel(cfg, "players_counter_channel_id"@) is Some
        || configured_channel(cfg, "servers_counter_channel_id"@) is Some
        || configured_channel(cfg, "activity_counter_channel_id"@) is Some
        || configured_channel(cfg, "ingame_voice_counter_channel_id"@) is Some
}

/// Some counter channel is set: otherwise there is nothing to refresh.
pub fn a_des_compteurs(cfg: &GuildConfig) -> (r: bool)
    requires
        cfg.wf(),
    ensures
        r == any_counter(cfg@),
{
    salon_configure(cfg, "players_counter_channel_id").is_some()
        || salon_configure(cfg, "servers_counter_channel_id").is_some()
        || salon_configure(cfg, "activity_counter_channel_id").is_some()
        || salon_configure(cfg, "ingame_voice_counter_channel_id").is_some()
}

fn plan_one(cfg: &GuildConfig, key: &str, fkey: &str, default: &str, value: Option<i64>, out: &mut Vec<(u64, String)>)
    requires
        cfg.wf(),
    ensures
        change_views(final(out)@) == change_views(old(out)@) + match (configured_channel(cfg@, key@), value) {
            (Some(c), Some(n)) => match channel_name(configured_format(cfg@, fkey@, default@), n) {
                Some(name) => seq![(c, name)],
                None => Seq::<(u64, Seq<char>)>::empty(),
            },
            _ => Seq::<(u64, Seq<char>)>::empty(),
        },
{
    let ghost before = change_views(out@);
    match (salon_configure(cfg, key), value) {
        (Some(c), Some(n)) => {
            let f = format_configure(cfg, fkey, default);
            match nom_du_salon(f.as_str(), n) {
                Some(name) => {
                    let ghost nv = name@;
                    out.push((c, name));
                    assert(change_views(out@) =~= before + seq![(c, nv)]);
                },
                None => {
                    assert(change_views(out@) =~= before + Seq::<(u64, Seq<char>)>::empty());
                },
            }
        },
        _ => {
            assert(change_views(out@) =~= before + Seq::<(u64, Seq<char>)>::empty());
        },
    }
}

/// Renames as plain values.
pub open spec fn change_views(v: Seq<(u64, String)>) -> Seq<(u64, Seq<char>)> {
    v.map_values(|c: (u64, String)| (c.0, c.1@))
}

/// The renames of one refresh of a guild's counters, from its settings and
/// what could be counted (`None` where the number is unknown: no presence
/// intent, guild not in cache, servers unreadable).
pub fn plan_des_renommages(cfg: &GuildConfig, ensemble: Option<i64>, activite: Option<i64>, releve: Option<Releve>) -> (r: Vec<(u64, String)>)
    requires
        cfg.wf(),
    ensures
        change_views(r@) == rename_plan(cfg@, ensemble, activite, releve),
{
    let mut out: Vec<(u64, String)> = Vec::new();
    assert(change_views(out@) =~= Seq::<(u64, Seq<char>)>::empty());
    plan_one(cfg, "ingame_voice_counter_channel_id", "ingame_voice_counter_format", "🎧 Ensemble : {count}", ensemble, &mut out);
    plan_one(cfg, "activity_counter_channel_id", "activity_counter_format", "🕹️ En partie : {count}", activite, &mut out);
    let joueurs = match releve {
        Some(r) => Some(r.joueurs),
        None => None,
    };
    plan_one(cfg, "players_counter_channel_id", "players_counter_format", "🎮 En jeu : {count}", joueurs, &mut out);
    let serveurs = match releve {
        Some(r) => Some(r.serveurs),
        None => None,
    };
    plan_one(cfg, "servers_counter_channel_id", "servers_counter_format", "🖥️ Serveurs actifs : {count}", serveurs, &mut out);
    out
}

/// A channel is renamed only when its name changes (the rename quota is the
/// scarce resource).
pub fn doit_renommer(actuel: Option<&str>, nom: &str) -> (r: bool)
    ensures
        r == !(crate::text::opt_text(actuel) == Some(nom@)),
{
    match actuel {
        Some(a) => !same_text(a, nom),
        None => true,
    }
}

} // verus!
