//! Locates a user's flashcard collection file among conventional install
//! layouts and user profiles, and decides the retry/report steps of a loop
//! that polls a possibly-locked collection store.
//!
//! Filesystem traversal, environment lookups and the store itself stay with
//! the caller; everything here works on plain values and is verified.

pub mod fspath;
pub mod poll;
pub mod render;
pub mod resolve;
