//! Rich presence for Wuthering Waves: what is known of a running game, what a
//! card says of it, and when a card is sent.
//!
//! The library decides; it opens no file, no socket and no process. A tick
//! runs like this:
//!
//! ```text
//! scan -> reader (private copy, triage, enrichment) -> decision -> frames
//! ```
//!
//! Account values (uids, names, levels) never stand in a message that is
//! logged; only counts, keys and ages do.

pub mod character;
pub mod cli;
pub mod db;
pub mod detect;
pub mod ipc;
pub mod json;
pub mod lock;
pub mod log;
pub mod presence;
pub mod session;
pub mod text;
