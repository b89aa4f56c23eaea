//! The pure parts of an OpenAI-compatible chat-completions provider: its
//! configuration, and the protocol types and conversions for its requests.
//! The HTTP transport and the JSON encoding live with the host.

pub mod config;
pub mod error;
pub mod proto;
pub mod response;
