//! Core of a client for the Agent Client Protocol.

pub mod capabilities;
pub mod connection;
pub mod content;
pub mod diagnostics;
pub mod environment;
mod filter;
pub mod json;
pub mod permission;
pub mod protocol;
pub mod router;
pub mod text;
