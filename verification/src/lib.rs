//! Live-chat ingestion for two broadcasting platforms: an IRC-based chat
//! service and a web-based video-streaming chat service.
//!
//! The crate holds the data model, the parsers and the protocol decisions;
//! transport (HTTP, IRC sockets) is left to the caller, which hands pages,
//! response bodies and socket lines in as plain values.

pub mod json;
pub mod multicast;
pub mod text;
pub mod twitch;
pub mod util;
pub mod youtube;
