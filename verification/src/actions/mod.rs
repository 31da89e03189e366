//! Action references as they are written in workflow files, and version tags.
pub mod reference;
pub mod version;

pub use reference::{ActionReference, ActionUpdate};
pub use version::{Version, is_likely_sha, parse_version, sha_matches};
