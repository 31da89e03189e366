//! Actions found by the scanner, with the update fields the resolver fills in.
use vstd::prelude::*;

pub mod resolved_update;

pub use crate::actions::version::{Version, is_likely_sha, parse_version, sha_matches};
pub use resolved_update::ResolvedUpdate;

use crate::actions::reference::spec_action_name;

verus! {

/// One `uses:` entry and, once resolved, its proposed update.
#[derive(Debug, Clone)]
pub struct Action {
    pub owner: String,
    pub name: String,
    pub path: String,
    pub current_ref: String,
    pub version_comment: Option<String>,
    pub file: String,
    pub line: usize,
    pub ref_start: usize,
    pub ref_end: usize,
    pub new_ref: String,
    pub new_version: String,
    pub expected_sha: String,
    pub sha_mismatch: bool,
    pub is_branch: bool,
    pub is_major: bool,
    pub needs_update: bool,
}

/// A release tag of a repository and the commit it points to.
#[derive(Debug, Clone)]
pub struct Tag {
    pub name: String,
    pub sha: String,
    pub version: Version,
}

/// How updated references are written.
#[derive(Clone, Copy, Debug, Default, Eq, PartialEq, Structural)]
pub enum PinStyle {
    #[default]
    Sha,
    Tag,
}

/// Which versions an update may move to.
#[derive(Clone, Copy, Debug, Default, Eq, PartialEq, Structural)]
pub enum UpdateMode {
    #[default]
    Major,
    Minor,
    Patch,
}

/// Settings for [`crate::resolve::resolve`].
#[derive(Debug, Clone)]
pub struct ResolveConfig {
    pub excludes: Vec<String>,
    pub skip_branches: bool,
    pub mode: UpdateMode,
    pub style: PinStyle,
}

impl Action {
    #[allow(clippy::too_many_arguments)]
    pub fn from_scan(
        owner: String,
        name: String,
        path: String,
        current_ref: String,
        version_comment: Option<String>,
        file: String,
        line: usize,
        ref_start: usize,
        ref_end: usize,
    ) -> (r: Self)
        ensures
            r.owner == owner,
            r.name == name,
            r.path == path,
            r.current_ref == current_ref,
            r.version_comment == version_comment,
            r.file == file,
            r.line == line,
            r.ref_start == ref_start,
            r.ref_end == ref_end,
            r.new_ref@.len() == 0,
            r.new_version@.len() == 0,
            r.expected_sha@.len() == 0,
            !r.sha_mismatch,
            !r.is_branch,
            !r.is_major,
            !r.needs_update,
    {
        Action {
            owner,
            name,
            path,
            current_ref,
            version_comment,
            file,
            line,
            ref_start,
            ref_end,
            new_ref: String::new(),
            new_version: String::new(),
            expected_sha: String::new(),
            sha_mismatch: false,
            is_branch: false,
            is_major: false,
            needs_update: false,
        }
    }

    pub fn action_name(&self) -> (r: String)
        ensures
            r@ == spec_action_name(self.owner@, self.name@, self.path@),
    {
        let mut s = crate::text::concat3(self.owner.as_str(), "/", self.name.as_str());
        crate::text::push_str(&mut s, self.path.as_str());
        proof {
            reveal_strlit("/");
        }
        s
    }
}

} // verus!
