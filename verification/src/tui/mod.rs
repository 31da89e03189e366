//! The interactive selection of planned updates: groups, rows, focus and
//! the state that answers keys.
pub mod app;
pub mod checklist;
pub mod selection;
pub mod view;
pub mod session;

pub use app::TuiOutcome;
pub use session::{TerminalOps, TerminalSession, TuiError};
