//! Action references discovered in workflow files.
use vstd::prelude::*;

use crate::text::concat3;

verus! {

/// A remote action `owner/name[/path]@current_ref` found at `file:line`.
#[derive(Debug, Clone)]
pub struct ActionReference {
    pub owner: String,
    pub name: String,
    pub path: String,
    pub current_ref: String,
    pub version_comment: Option<String>,
    pub file: String,
    pub line: usize,
    pub ref_start: usize,
    pub ref_end: usize,
}

/// A proposed new ref for one [`ActionReference`].
#[derive(Debug, Clone)]
pub struct ActionUpdate {
    pub action: ActionReference,
    pub new_ref: String,
    pub new_version: String,
    pub expected_sha: String,
    pub sha_mismatch: bool,
    pub is_branch: bool,
    pub is_major: bool,
}

/// `owner/name` followed by the sub-path (which carries its own leading `/`).
pub open spec fn spec_action_name(owner: Seq<char>, name: Seq<char>, path: Seq<char>) -> Seq<
    char,
> {
    owner + seq!['/'] + name + path
}

impl ActionReference {
    #[allow(clippy::too_many_arguments)]
    pub fn from_discovery(
        owner: String,
        name: String,
        path: String,
        current_ref: String,
        version_comment: Option<String>,
        file: String,
        line: usize,
        ref_start: usize,
        ref_end: usize,
    ) -> (r: Self)
        ensures
            r.owner == owner,
            r.name == name,
            r.path == path,
            r.current_ref == current_ref,
            r.version_comment == version_comment,
            r.file == file,
            r.line == line,
            r.ref_start == ref_start,
            r.ref_end == ref_end,
    {
        ActionReference {
            owner,
            name,
            path,
            current_ref,
            version_comment,
            file,
            line,
            ref_start,
            ref_end,
        }
    }

    pub fn action_name(&self) -> (r: String)
        ensures
            r@ == spec_action_name(self.owner@, self.name@, self.path@),
    {
        let mut s = concat3(self.owner.as_str(), "/", self.name.as_str());
        crate::text::push_str(&mut s, self.path.as_str());
        proof {
            reveal_strlit("/");
        }
        s
    }
}

impl ActionUpdate {
    pub fn action_name(&self) -> (r: String)
        ensures
            r@ == spec_action_name(self.action.owner@, self.action.name@, self.action.path@),
    {
        self.action.action_name()
    }
}

} // verus!
