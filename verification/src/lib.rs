//! Session-corpus indexing and interactive navigation engine.
//!
//! The crate scans line-delimited transcript files into normalized
//! `Session` summaries, ranks and filters them against live queries,
//! searches raw transcript content by pattern, and drives the state
//! machine behind an interactive session picker.

pub mod clock;
pub mod decode;
pub mod filter;
pub mod prompts;
pub mod scan;
pub mod scriptable;
pub mod search;
pub mod session;
pub mod shell_setup;
pub mod textops;
pub mod tui;
