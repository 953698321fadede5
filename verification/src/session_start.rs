//! Opening of a game session on Discord, as a sequence of steps: each step
//! takes what the last outside action gave back and decides the next one.
//! The channels and the role that a step creates are kept only when the
//! session claims them; otherwise every one of them is deleted again.

use vstd::prelude::*;

use crate::portal::REGISTER_PREFIX;
use crate::text::{contains_text, has_infix, has_prefix, starts_with_text};

verus! {

/// Where the opening of a session stands.
#[derive(Debug, PartialEq, Eq, Structural, Clone, Copy)]
pub enum SessionStartState {
    /// The server of the session is being read.
    Reading,
    /// The text channel recorded for the session is being looked up.
    Checking { channel: u64 },
    /// The references to vanished channels are being released.
    Releasing,
    /// The role of the session is being created.
    CreatingRole,
    /// The three channels of the session are being created.
    CreatingChannels { role: u64 },
    /// The created channels are being claimed for the session.
    Claiming { role: u64, text: u64, private: u64, voice: u64 },
    /// Nothing is left to decide.
    Finished,
}

/// How the claim of the created channels ended.
#[derive(Debug, PartialEq, Eq, Structural, Clone, Copy)]
pub enum ClaimOutcome {
    /// The session took the channels.
    Claimed,
    /// The session already had channels: the event was replayed.
    AlreadyClaimed,
    /// The claim could not be made: the channels stay.
    Failed,
}

/// What the last outside action gave back.
#[derive(Debug, PartialEq, Eq, Structural, Clone, Copy)]
pub enum SessionStartEvent {
    /// The server was read, with the text channel it records, if any.
    ServerRead { text_channel: Option<u64> },
    /// The server could not be read.
    ServerUnreadable,
    /// The recorded text channel was looked up.
    ChannelChecked { exists: bool },
    /// The release of the vanished channels ended, or failed.
    GhostsReleased { ok: bool },
    /// The role was created, or could not be.
    RoleCreated { role: Option<u64> },
    /// Each channel was created, or could not be.
    ChannelsCreated { text: Option<u64>, private: Option<u64>, voice: Option<u64> },
    /// The claim of the channels ended.
    ChannelsClaimed { outcome: ClaimOutcome },
}

/// What is to be done next.
#[derive(Debug, PartialEq, Eq, Structural, Clone, Copy)]
pub enum SessionStartAction {
    /// Look up the recorded text channel.
    CheckChannel { channel: u64 },
    /// The channels are in place: bring the pinned panel up to date, and stop.
    RefreshPinnedPanel { channel: u64 },
    /// Release the references to the vanished channels.
    ReleaseGhosts,
    /// Create the role of the session.
    CreateRole,
    /// Create the registration, private and voice channels.
    CreateChannels { role: u64 },
    /// Claim the registration and voice channels for the session.
    ClaimChannels { text: u64, voice: u64 },
    /// Delete each channel given and the role, and stop.
    RollBack { text_channel: Option<u64>, private_channel: Option<u64>, voice_channel: Option<u64>, role: u64 },
    /// Give the role to the registered players, then publish the
    /// announcement and the panel.
    GrantRoleAndPublish { role: u64 },
    /// Stop here.
    Stop,
}

/// The next state and action of the opening of a session.
pub open spec fn session_start_spec(s: SessionStartState, e: SessionStartEvent) -> (SessionStartState, SessionStartAction) {
    match (s, e) {
        (SessionStartState::Reading, SessionStartEvent::ServerRead { text_channel }) => match text_channel {
            Some(c) => (SessionStartState::Checking { channel: c }, SessionStartAction::CheckChannel { channel: c }),
            None => (SessionStartState::CreatingRole, SessionStartAction::CreateRole),
        },
        (SessionStartState::Checking { channel }, SessionStartEvent::ChannelChecked { exists }) => if exists {
            (SessionStartState::Finished, SessionStartAction::RefreshPinnedPanel { channel })
        } else {
            (SessionStartState::Releasing, SessionStartAction::ReleaseGhosts)
        },
        (SessionStartState::Releasing, SessionStartEvent::GhostsReleased { ok }) => if ok {
            (SessionStartState::CreatingRole, SessionStartAction::CreateRole)
        } else {
            (SessionStartState::Finished, SessionStartAction::Stop)
        },
        (SessionStartState::CreatingRole, SessionStartEvent::RoleCreated { role }) => match role {
            Some(r) => (SessionStartState::CreatingChannels { role: r }, SessionStartAction::CreateChannels { role: r }),
            None => (SessionStartState::Finished, SessionStartAction::Stop),
        },
        (SessionStartState::CreatingChannels { role }, SessionStartEvent::ChannelsCreated { text, private, voice }) => {
            match (text, private, voice) {
                (Some(t), Some(p), Some(v)) => (
                    SessionStartState::Claiming { role, text: t, private: p, voice: v },
                    SessionStartAction::ClaimChannels { text: t, voice: v },
                ),
                _ => (SessionStartState::Finished, SessionStartAction::RollBack { text_channel: text, private_channel: private, voice_channel: voice, role }),
            }
        },
        (SessionStartState::Claiming { role, text, private, voice }, SessionStartEvent::ChannelsClaimed { outcome }) => {
            match outcome {
                ClaimOutcome::AlreadyClaimed => (
                    SessionStartState::Finished,
                    SessionStartAction::RollBack {
                        text_channel: Some(text),
                        private_channel: Some(private),
                        voice_channel: Some(voice),
                        role,
                    },
                ),
                _ => (SessionStartState::Finished, SessionStartAction::GrantRoleAndPublish { role }),
            }
        },
        _ => (SessionStartState::Finished, SessionStartAction::Stop),
    }
}

/// One step of the opening of a session: from where it stands and what the
/// last action gave back, to where it stands next and what to do.
pub fn session_start_step(s: SessionStartState, e: SessionStartEvent) -> (r: (SessionStartState, SessionStartAction))
    ensures
        r == session_start_spec(s, e),
{
    match (s, e) {
        (SessionStartState::Reading, SessionStartEvent::ServerRead { text_channel }) => match text_channel {
            Some(c) => (SessionStartState::Checking { channel: c }, SessionStartAction::CheckChannel { channel: c }),
            None => (SessionStartState::CreatingRole, SessionStartAction::CreateRole),
        },
        (SessionStartState::Checking { channel }, SessionStartEvent::ChannelChecked { exists }) => if exists {
            (SessionStartState::Finished, SessionStartAction::RefreshPinnedPanel { channel })
        } else {
            (SessionStartState::Releasing, SessionStartAction::ReleaseGhosts)
        },
        (SessionStartState::Releasing, SessionStartEvent::GhostsReleased { ok }) => if ok {
            (SessionStartState::CreatingRole, SessionStartAction::CreateRole)
        } else {
            (SessionStartState::Finished, SessionStartAction::Stop)
        },
        (SessionStartState::CreatingRole, SessionStartEvent::RoleCreated { role }) => match role {
            Some(r) => (SessionStartState::CreatingChannels { role: r }, SessionStartAction::CreateChannels { role: r }),
            None => (SessionStartState::Finished, SessionStartAction::Stop),
        },
        (SessionStartState::CreatingChannels { role }, SessionStartEvent::ChannelsCreated { text, private, voice }) => {
            match (text, private, voice) {
                (Some(t), Some(p), Some(v)) => (
                    SessionStartState::Claiming { role, text: t, private: p, voice: v },
                    SessionStartAction::ClaimChannels { text: t, voice: v },
                ),
                _ => (SessionStartState::Finished, SessionStartAction::RollBack { text_channel: text, private_channel: private, voice_channel: voice, role }),
            }
        },
        (SessionStartState::Claiming { role, text, private, voice }, SessionStartEvent::ChannelsClaimed { outcome }) => {
            match outcome {
                ClaimOutcome::AlreadyClaimed => (
                    SessionStartState::Finished,
                    SessionStartAction::RollBack {
                        text_channel: Some(text),
                        private_channel: Some(private),
                        voice_channel: Some(voice),
                        role,
                    },
                ),
                _ => (SessionStartState::Finished, SessionStartAction::GrantRoleAndPublish { role }),
            }
        },
        _ => (SessionStartState::Finished, SessionStartAction::Stop),
    }
}

/// Nothing created is left behind: when the creation of the channels is
/// partial, every channel that was created and the role are deleted; when
/// the claim finds the session already provided, all three channels and the
/// role are deleted; and only a claim that went through, or could not be
/// made, keeps them and gives the role out.
pub proof fn partial_or_replayed_openings_roll_back(
    role: u64,
    text: Option<u64>,
    private: Option<u64>,
    voice: Option<u64>,
    outcome: ClaimOutcome,
)
    ensures
        ({
            let (next, action) = session_start_spec(
                SessionStartState::CreatingChannels { role },
                SessionStartEvent::ChannelsCreated { text, private, voice },
            );
            if text is Some && private is Some && voice is Some {
                &&& action == SessionStartAction::ClaimChannels { text: text->0, voice: voice->0 }
                &&& session_start_spec(next, SessionStartEvent::ChannelsClaimed { outcome }).1 == if outcome
                    == ClaimOutcome::AlreadyClaimed {
                    SessionStartAction::RollBack { text_channel: text, private_channel: private, voice_channel: voice, role }
                } else {
                    SessionStartAction::GrantRoleAndPublish { role }
                }
            } else {
                &&& next == SessionStartState::Finished
                &&& action == SessionStartAction::RollBack { text_channel: text, private_channel: private, voice_channel: voice, role }
            }
        }),
{
}

/// A role that the opening asks for is never left without channels: from
/// wherever a step asks for the creation of the role, the creation of that
/// role leads to the creation of the channels for that very role. In
/// particular the opening goes on to create the role when the session's
/// recorded channel has vanished and its references were released, as it
/// does when the session records no channel.
pub proof fn a_created_role_gets_its_channels(s: SessionStartState, e: SessionStartEvent, role: u64)
    ensures
        session_start_spec(s, e).1 == SessionStartAction::CreateRole ==> session_start_spec(
            session_start_spec(s, e).0,
            SessionStartEvent::RoleCreated { role: Some(role) },
        ) == (SessionStartState::CreatingChannels { role }, SessionStartAction::CreateChannels { role }),
        session_start_spec(SessionStartState::Releasing, SessionStartEvent::GhostsReleased { ok: true }).1
            == SessionStartAction::CreateRole,
        session_start_spec(SessionStartState::Reading, SessionStartEvent::ServerRead { text_channel: None }).1
            == SessionStartAction::CreateRole,
{
}

/// Channels are created only for the role just created, and what comes of
/// their creation concerns that role: their claim when all three exist, the
/// deletion of those that exist and of that role otherwise.
pub proof fn created_channels_belong_to_their_role(
    s: SessionStartState,
    e: SessionStartEvent,
    role: u64,
    text: Option<u64>,
    private: Option<u64>,
    voice: Option<u64>,
)
    ensures
        session_start_spec(s, e).1 == (SessionStartAction::CreateChannels { role }) ==> {
            &&& e == SessionStartEvent::RoleCreated { role: Some(role) }
            &&& ({
                let next = session_start_spec(
                    session_start_spec(s, e).0,
                    SessionStartEvent::ChannelsCreated { text, private, voice },
                ).1;
                if text is Some && private is Some && voice is Some {
                    next == SessionStartAction::ClaimChannels { text: text->0, voice: voice->0 }
                } else {
                    next == SessionStartAction::RollBack {
                        text_channel: text,
                        private_channel: private,
                        voice_channel: voice,
                        role,
                    }
                }
            })
        },
{
}

/// A button of the registration panel of session `server_id`: its custom id
/// starts with the registration prefix and holds the server id.
pub open spec fn panel_button_of(custom_id: Seq<char>, server_id: Seq<char>) -> bool {
    has_prefix(custom_id, REGISTER_PREFIX@) && has_infix(custom_id, server_id)
}

/// Is this button, found on a pinned message, one of the registration panel
/// of session `server_id`?
pub fn is_session_panel_button(custom_id: &str, server_id: &str) -> (r: bool)
    ensures
        r == panel_button_of(custom_id@, server_id@),
{
    starts_with_text(custom_id, REGISTER_PREFIX) && contains_text(custom_id, server_id)
}

} // verus!
