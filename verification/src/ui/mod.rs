//! The update picker over resolved updates.
pub mod prompt;
