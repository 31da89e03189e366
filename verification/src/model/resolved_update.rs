//! A resolved update ready to show and to write back.
use vstd::prelude::*;

verus! {

/// A fully resolved workflow update that can be shown to the user and applied to a file.
#[derive(Clone, Debug, Eq, PartialEq)]
pub struct ResolvedUpdate {
    /// Repository or reusable-workflow name, such as `actions/checkout`.
    pub action: String,
    /// Job or composite scope used for display.
    pub job: String,
    /// The exact current ref text from the `uses:` clause.
    pub current: String,
    /// The resolved SHA that the current ref is expected to point to, when known.
    pub current_ref: String,
    /// Parsed version comment from the source line, for example `v4.2.0`.
    pub version_comment: String,
    /// Whether the current SHA conflicts with the stated version comment.
    pub sha_mismatch: bool,
    /// The exact replacement text for the `uses:` ref slot.
    pub next: String,
    /// Human-friendly label for the replacement target, usually the matching tag.
    pub next_label: String,
    /// File containing the reference.
    pub file: String,
    /// 1-based source line for display.
    pub line: usize,
    /// Whether this update crosses a major version boundary.
    pub next_is_major: bool,
    /// Start byte of the ref portion inside the source file.
    pub ref_start: usize,
    /// End byte of the ref portion inside the source file.
    pub ref_end: usize,
}

impl ResolvedUpdate {
    pub open spec fn spec_display_target(&self) -> Seq<char> {
        if self.next_label@.len() == 0 {
            self.next@
        } else {
            self.next_label@
        }
    }

    pub fn display_target(&self) -> (r: &str)
        ensures
            r@ == self.spec_display_target(),
    {
        if self.next_label.as_str().is_empty() {
            self.next.as_str()
        } else {
            self.next_label.as_str()
        }
    }

    pub fn has_current_ref(&self) -> (r: bool)
        ensures
            r == (self.current_ref@.len() > 0),
    {
        !self.current_ref.as_str().is_empty()
    }

    pub fn has_version_comment(&self) -> (r: bool)
        ensures
            r == (self.version_comment@.len() > 0),
    {
        !self.version_comment.as_str().is_empty()
    }

    pub fn has_sha_mismatch(&self) -> (r: bool)
        ensures
            r == self.sha_mismatch,
    {
        self.sha_mismatch
    }

    pub fn is_major_update(&self) -> (r: bool)
        ensures
            r == self.next_is_major,
    {
        self.next_is_major
    }

    pub fn should_write_version_comment(&self) -> (r: bool)
        ensures
            r == (self.spec_display_target().len() > 0 && (self.next@ != self.spec_display_target()
                || self.version_comment@.len() > 0 || self.sha_mismatch)),
    {
        let target = self.display_target();
        !target.is_empty() && (!crate::text::str_eq(self.next.as_str(), target)
            || self.has_version_comment() || self.has_sha_mismatch())
    }
}

} // verus!
