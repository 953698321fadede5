//! Nexus bot library: the decisions, texts and parsers behind the Discord
//! bot of the Nexus platform (game portal, wheel of fortune, cushion duels,
//! counters, achievements), verified with Verus.

pub mod achievements;
pub mod api_client;
pub mod compteurs;
pub mod config;
pub mod coussin;
pub mod dates;
pub mod economy;
pub mod embeds;
pub mod event_bus;
pub mod games;
pub mod grand_salon;
pub mod guard;
pub mod json;
pub mod order;
pub mod portal;
pub mod reactions;
pub mod reglages;
pub mod session_start;
pub mod sync;
pub mod text;
pub mod wheel;
