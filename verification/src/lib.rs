//! The details view of a commit: what is selected, the lines that show it, and what of them
//! is drawn.
//!
//! The library computes. It is told what was read of a commit, and it tells what is to be
//! drawn; reading repositories and writing to a terminal are left to its callers.

pub mod bytes;
pub mod cli_id;
pub mod details;
pub mod digits;
pub mod git;
pub mod highlight;
pub mod hunk;
pub mod ids;
pub mod laws;
pub mod lines;
pub mod rendering;
pub mod sections;
pub mod text;
pub mod theme;
