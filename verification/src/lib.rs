use vstd::prelude::*;

pub mod actions;
pub mod audit;
pub mod ansi;
pub mod cache;
pub mod cli;
pub mod clock;
pub mod cmd;
pub mod config;
pub mod discovery;
pub mod engine;
pub mod github;
pub mod laws;
pub mod logger;
pub mod model;
pub mod patch;
pub mod paths;
pub mod prompt;
pub mod render;
pub mod resolve;
pub mod rewrite;
pub mod scan;
pub mod semver_ext;
pub mod syntax;
pub mod terminal;
pub mod text;
pub mod tui;
pub mod ui;
pub mod update;

verus! {

/// Version of the actioneer package.
pub const VERSION: &'static str = "0.1.0";

} // verus!
