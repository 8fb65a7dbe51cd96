//! A bridge between a chat channel and a game server's administrative API.
//!
//! The crate holds the decisions of the bridge: how successive player lists
//! are reconciled into join and leave announcements, when the published player
//! count is refreshed, how a failed remote call is retried, and which text is
//! sent where. Performing the network calls is left to the embedding program.

pub mod bridge;
pub mod decimal;
pub mod endpoints;
pub mod messages;
pub mod presence;
pub mod relay;
pub mod retry;
pub mod settings;
