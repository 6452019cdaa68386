//! The per-connection engine of a Gemini server, kept apart from the
//! transport: request framing and parsing, virtual-host routing, the
//! rewrite and redirect rules, path resolution and response planning.
//! The caller performs the reads, the filesystem probes and the writes
//! that the engine asks for, and hands back what came of them.

pub mod status;
pub mod config;
pub mod connection;
pub mod listing;
pub mod mimetype;
pub mod paths;
pub mod request;
pub mod rules;
pub mod serving;
pub mod text;
pub mod url;
