//! A small HTTP relay core: it validates a command name, builds a prompt for a
//! remote generative-language service, frames the outbound JSON payload, and
//! unwraps the remote JSON reply into either the answer text or a typed error.
//!
//! The surrounding binary owns the sockets and the outbound HTTPS call; this
//! crate owns every decision: which commands are valid, the exact prompt
//! text, the exact bytes of the wire payloads, and how every remote outcome
//! maps to a response.

pub mod errors;
pub mod gateway;
pub mod handler;
pub mod json;
pub mod parse;
pub mod reply;
pub mod text;
