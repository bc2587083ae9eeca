//! A relay for peer-to-peer "house" sessions: the connection registry and signaling
//! router, presence tracking, last-writer-wins profile replication, and a short-lived
//! event log with invite tokens, each with the contracts it is verified against.

pub mod api;
pub mod events;
pub mod messages;
pub mod presence;
pub mod profiles;
pub mod relay;
pub mod rest;
pub mod signaling;
pub mod strlist;
pub mod strmap;
pub mod time;
pub mod voice;
