//! The permanent panel of the wheel of fortune: its button, who may deploy
//! it, which old panels are cleared, and the replies.

use vstd::prelude::*;
use vstd::string::*;

use crate::embeds::Embed;
use crate::text::{opt_string, owned, push_str, same_text};

verus! {

/// Custom id of the panel's button.
pub const PANEL_SPIN_ID: &'static str = "roue_panel_spin";

/// Exact title of the panel, by which old panels are found.
pub const PANEL_TITLE: &'static str = "\u{1f300} La Roue du Destin";

/// Suspense between the announcement of a spin and its result.
pub const SPIN_ANIMATION_MS: u64 = 4000;

/// Reply without the permission to deploy the panel.
pub const MSG_PERMISSION_REQUIRED: &'static str = "Permission « Gerer le serveur » requise.";
/// Reply when the panel could not be posted.
pub const MSG_DEPLOY_FAILED: &'static str = "Deploiement du panneau impossible.";
/// Reply once the panel is posted.
pub const MSG_DEPLOY_SUCCESS: &'static str = "Panneau de la Roue deploye !";

/// Permission bit to manage the guild.
pub const MANAGE_GUILD: u64 = 0x20;
/// Permission bit of administrators.
pub const ADMINISTRATOR: u64 = 0x8;
/// Permission bit to manage messages.
pub const MANAGE_MESSAGES: u64 = 0x2000;

/// The wheel answers this component.
pub fn handles_component(custom_id: &str) -> (r: bool)
    ensures
        r == (custom_id@ == PANEL_SPIN_ID@),
{
    same_text(custom_id, PANEL_SPIN_ID)
}

/// The member's permissions (when readable) allow deploying the panel:
/// managing the guild or administrator.
pub open spec fn panel_admin(permissions: Option<u64>) -> bool {
    match permissions {
        Some(p) => (p & MANAGE_GUILD) == MANAGE_GUILD || (p & ADMINISTRATOR) == ADMINISTRATOR,
        None => false,
    }
}

/// May this member deploy the panel? Without readable permissions, no.
pub fn is_panel_admin(permissions: Option<u64>) -> (r: bool)
    ensures
        r == panel_admin(permissions),
{
    match permissions {
        Some(p) => (p & MANAGE_GUILD) == MANAGE_GUILD || (p & ADMINISTRATOR) == ADMINISTRATOR,
        None => false,
    }
}

/// The panel's embed.
pub fn build_panel_embed() -> (r: Embed)
    ensures
        opt_string(r.title) == Some(PANEL_TITLE@),
        opt_string(r.description) == Some("\u{1fa99} **Une fois par jour**, tente ta chance.\n\nLe destin peut te rendre **riche** (jackpot, licorne) ou **ridicule**\n(PQ, ruine, bombe). Un seul tirage par jour, alors choisis bien... ou pas.\n\n*Le resultat est annonce publiquement. Tout le salon en parle.*"@),
        r.color == Some(0xf1c40fu32),
        r.fields@.len() == 0,
        r.footer is None,
        r.image is None,
        r.thumbnail is None,
        !r.timestamp,
{
    Embed::new().title(owned(PANEL_TITLE)).description(owned("\u{1fa99} **Une fois par jour**, tente ta chance.\n\nLe destin peut te rendre **riche** (jackpot, licorne) ou **ridicule**\n(PQ, ruine, bombe). Un seul tirage par jour, alors choisis bien... ou pas.\n\n*Le resultat est annonce publiquement. Tout le salon en parle.*")).color(0xf1c40f)
}

/// Some title is the panel's.
pub open spec fn has_panel_title(titles: Seq<Option<Seq<char>>>) -> bool {
    titles.contains(Some(PANEL_TITLE@))
}

fn any_panel_title(titles: &[Option<String>]) -> (r: bool)
    ensures
        r == has_panel_title(titles@.map_values(|t: Option<String>| opt_string(t))),
{
    let ghost tv = titles@.map_values(|t: Option<String>| opt_string(t));
    let mut i: usize = 0;
    while i < titles.len()
        invariant
            i <= titles@.len(),
            tv == titles@.map_values(|t: Option<String>| opt_string(t)),
            forall|j: int| 0 <= j < i ==> tv[j] != Some(PANEL_TITLE@),
        decreases titles@.len() - i,
    {
        match &titles[i] {
            Some(t) => {
                if same_text(t.as_str(), PANEL_TITLE) {
                    assert(tv[i as int] == Some(PANEL_TITLE@));
                    return true;
                }
            },
            None => {},
        }
        i = i + 1;
    }
    false
}

/// A message is an old panel: posted by the bot, with the panel's title.
pub fn is_old_wheel_panel(author_id: u64, bot_id: u64, titles: &[Option<String>]) -> (r: bool)
    ensures
        r == (author_id == bot_id && has_panel_title(titles@.map_values(|t: Option<String>| opt_string(t)))),
{
    author_id == bot_id && any_panel_title(titles)
}

/// A message as the panel scan sees it: its id, its author, the titles of
/// its embeds.
pub struct ScannedMessage {
    pub id: u64,
    pub author: u64,
    pub titles: Vec<Option<String>>,
}

/// The old panel is one of the bot's panels.
pub open spec fn old_panel(m: ScannedMessage, bot_id: u64) -> bool {
    m.author == bot_id && has_panel_title(m.titles@.map_values(|t: Option<String>| opt_string(t)))
}

/// Ids of the old panels among the messages, in order.
pub open spec fn old_panel_ids(v: Seq<ScannedMessage>, bot_id: u64) -> Seq<u64>
    decreases v.len(),
{
    if v.len() == 0 {
        Seq::empty()
    } else if old_panel(v.last(), bot_id) {
        old_panel_ids(v.drop_last(), bot_id).push(v.last().id)
    } else {
        old_panel_ids(v.drop_last(), bot_id)
    }
}

/// Ids of the old panels to delete once a new one is posted.
pub fn filter_old_wheel_panel_ids(messages: &[ScannedMessage], bot_id: u64) -> (r: Vec<u64>)
    ensures
        r@ == old_panel_ids(messages@, bot_id),
{
    let mut out: Vec<u64> = Vec::new();
    let mut i: usize = 0;
    while i < messages.len()
        invariant
            i <= messages@.len(),
            out@ == old_panel_ids(messages@.take(i as int), bot_id),
        decreases messages@.len() - i,
    {
        assert(messages@.take(i + 1).drop_last() =~= messages@.take(i as int));
        assert(messages@.take(i + 1).last() == messages@[i as int]);
        let m = &messages[i];
        if is_old_wheel_panel(m.author, bot_id, m.titles.as_slice()) {
            out.push(m.id);
        }
        i = i + 1;
    }
    assert(messages@.take(messages@.len() as int) =~= messages@);
    out
}

/// Private reply once the spin is shown.
pub fn format_spin_result_response(case_label: &str) -> (r: String)
    ensures
        r@ == "\u{1f300} Ton tirage : "@ + case_label@,
{
    let mut s = owned("\u{1f300} Ton tirage : ");
    push_str(&mut s, case_label);
    s
}

} // verus!
