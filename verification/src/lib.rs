//! Core of a terminal typing test: lines of target text scored character by
//! character, and the session state machine that rotates lines and decides
//! when a test is over.
pub mod text;
pub mod line;
pub mod session;
pub mod words;
