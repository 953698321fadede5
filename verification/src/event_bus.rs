//! Names on the Nexus event bus: the stream the bot reads, and the kinds of
//! event it acts on.

use vstd::prelude::*;

verus! {

/// Stream of the Nexus events.
pub const STREAM_KEY: &'static str = "nexus:events";

/// Kind of the event published when a member unlocks an achievement.
pub const ACHIEVEMENT_UNLOCKED: &'static str = "achievement.unlocked";

/// Kind of the event published when the API settles a steal attempt.
pub const STEAL_RESOLVED: &'static str = "coussin_steal_resolved";

} // verus!
