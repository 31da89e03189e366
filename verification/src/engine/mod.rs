//! Workflow parsing engine: `uses:` values, source lines and workflow documents.
use vstd::prelude::*;

pub mod parse;
pub mod reference;
pub mod uses_line;

pub use parse::{RawJob, RawStep, RawWorkflow, build_document};
pub use uses_line::{UsesLine, join as join_uses_line, split as split_uses_line, uses_value_start};

use crate::semver_ext::{parse_semver, semver_parse};
use crate::text::{all_digits, chars_of, contains_seq, digit, find_seq, str_eq};

verus! {

/// The kind of entity a `uses:` value refers to.
#[derive(Debug, Clone, Copy, PartialEq, Eq, Structural)]
pub enum ReferenceKind {
    /// A GitHub-hosted action: `owner/repo@ref` or `owner/repo/sub/path@ref`.
    Action,
    /// A local action on disk: `./path/to/action` or `../relative/path`.
    LocalAction,
    /// A Docker-based action: `docker://image:tag`.
    Docker,
    /// A reusable workflow.
    ReusableWorkflow,
}

/// How a [`ReferenceKind`] participates in audit and update operations.
#[derive(Debug, Clone, Copy, PartialEq, Eq, Structural)]
pub enum AuditTier {
    /// Full pin checks; automatic updates supported.
    Primary,
    /// Partial checks and warnings only.
    Secondary,
}

pub open spec fn spec_audit_tier(k: ReferenceKind) -> AuditTier {
    match k {
        ReferenceKind::Action | ReferenceKind::ReusableWorkflow => AuditTier::Primary,
        ReferenceKind::Docker | ReferenceKind::LocalAction => AuditTier::Secondary,
    }
}

pub open spec fn kind_label(k: ReferenceKind) -> Seq<char> {
    match k {
        ReferenceKind::Action => "action"@,
        ReferenceKind::LocalAction => "local"@,
        ReferenceKind::Docker => "docker"@,
        ReferenceKind::ReusableWorkflow => "reusable-workflow"@,
    }
}

impl ReferenceKind {
    /// The audit tier for this reference kind.
    pub fn audit_tier(self) -> (r: AuditTier)
        ensures
            r == spec_audit_tier(self),
    {
        match self {
            ReferenceKind::Action | ReferenceKind::ReusableWorkflow => AuditTier::Primary,
            ReferenceKind::Docker | ReferenceKind::LocalAction => AuditTier::Secondary,
        }
    }

    /// Returns `true` if automatic updates are supported for this reference kind.
    pub fn is_updatable(self) -> (r: bool)
        ensures
            r == (self == ReferenceKind::Action),
    {
        match self {
            ReferenceKind::Action => true,
            _ => false,
        }
    }

    /// The display label of this kind.
    pub fn label(self) -> (r: &'static str)
        ensures
            r@ == kind_label(self),
    {
        match self {
            ReferenceKind::Action => "action",
            ReferenceKind::LocalAction => "local",
            ReferenceKind::Docker => "docker",
            ReferenceKind::ReusableWorkflow => "reusable-workflow",
        }
    }
}

/// How the `@ref` component of a `uses:` value is pinned.
#[derive(Debug, Clone, Copy, PartialEq, Eq, Structural)]
pub enum PinKind {
    /// Exactly 40 hex characters: a full SHA-1 commit hash.
    FullSha,
    /// 7–39 hex characters: an abbreviated SHA.
    ShortSha,
    /// `v` followed by a digit: a version tag.
    Tag,
    /// Any other ref: a branch name, `HEAD`, ...
    Branch,
    /// No `@ref` component at all.
    Unpinned,
}

pub open spec fn pin_label(k: PinKind) -> Seq<char> {
    match k {
        PinKind::FullSha => "full-sha"@,
        PinKind::ShortSha => "short-sha"@,
        PinKind::Tag => "tag"@,
        PinKind::Branch => "branch"@,
        PinKind::Unpinned => "unpinned"@,
    }
}

impl PinKind {
    /// The display label of this pin kind.
    pub fn label(self) -> (r: &'static str)
        ensures
            r@ == pin_label(self),
    {
        match self {
            PinKind::FullSha => "full-sha",
            PinKind::ShortSha => "short-sha",
            PinKind::Tag => "tag",
            PinKind::Branch => "branch",
            PinKind::Unpinned => "unpinned",
        }
    }
}

/// A single `uses:` reference extracted from a workflow file.
#[derive(Debug, Clone, PartialEq, Eq)]
pub struct ActionReference {
    /// The raw string exactly as it appears in the `uses:` field.
    pub raw: String,
    /// The kind of entity this reference points to.
    pub kind: ReferenceKind,
    /// How the ref component is pinned.
    pub pin_kind: PinKind,
    /// Action/workflow owner; `None` for local paths and Docker images.
    pub owner: Option<String>,
    /// Repository name; `None` for local paths and Docker images.
    pub repo: Option<String>,
    /// Sub-path within the repository, local path, or Docker image.
    pub subpath: Option<String>,
    /// The `@ref` part of the `uses:` value, if present.
    pub git_ref: Option<String>,
    /// The `name:` field of the step, if present.
    pub step_name: Option<String>,
    /// The job map key.
    pub job_id: String,
    /// The `name:` field of the job, if present.
    pub job_name: Option<String>,
    /// Zero-based index of this step within its job's `steps:`.
    pub step_index: Option<usize>,
    /// 1-based line number where the `uses:` key appears.
    pub line: Option<u32>,
    /// Trailing comment on the `uses:` line, without `#`, trimmed.
    pub line_comment: Option<String>,
}

impl ActionReference {
    /// A reusable workflow referenced by a local path (it has no owner).
    pub open spec fn spec_is_local_reusable_workflow(&self) -> bool {
        self.kind == ReferenceKind::ReusableWorkflow && self.owner is None
    }

    /// A field-by-field copy of this reference.
    pub fn duplicate(&self) -> (r: Self)
        ensures
            r == *self,
    {
        ActionReference {
            raw: self.raw.clone(),
            kind: self.kind,
            pin_kind: self.pin_kind,
            owner: crate::text::clone_opt_string(&self.owner),
            repo: crate::text::clone_opt_string(&self.repo),
            subpath: crate::text::clone_opt_string(&self.subpath),
            git_ref: crate::text::clone_opt_string(&self.git_ref),
            step_name: crate::text::clone_opt_string(&self.step_name),
            job_id: self.job_id.clone(),
            job_name: crate::text::clone_opt_string(&self.job_name),
            step_index: self.step_index,
            line: self.line,
            line_comment: crate::text::clone_opt_string(&self.line_comment),
        }
    }

    /// Whether this is a reusable workflow referenced by a local path.
    pub fn is_local_reusable_workflow(&self) -> (r: bool)
        ensures
            r == self.spec_is_local_reusable_workflow(),
    {
        self.kind == ReferenceKind::ReusableWorkflow && self.owner.is_none()
    }
}

/// A parsed GitHub Actions workflow document.
#[derive(Debug, Clone, PartialEq, Eq)]
pub struct WorkflowDocument {
    /// The top-level `name:` field, if present.
    pub name: Option<String>,
    /// All `uses:` references, in document order.
    pub references: Vec<ActionReference>,
}

/// Result of comparing the trailing comment on a `uses:` line against the pinned ref.
#[derive(Debug, Clone, PartialEq, Eq)]
pub enum CommentMatch {
    /// No trailing comment is present.
    NoComment,
    /// The comment corresponds to the pinned ref.
    Match,
    /// A comment is present but does not correspond to the pinned ref.
    Mismatch {
        /// The comment text (without the leading `#`).
        comment: String,
        /// The ref that was expected in the comment.
        expected: String,
    },
}

/// Errors returned when a workflow cannot be read.
#[derive(Debug, Clone, PartialEq, Eq)]
pub enum ParseError {
    /// The content could not be parsed as YAML (the parser's message).
    Yaml(String),
    /// The document is valid YAML but not a recognisable workflow structure.
    InvalidStructure(String),
}

/// The user-facing text of a parse error.
pub open spec fn parse_error_text(e: ParseError) -> Seq<char> {
    match e {
        ParseError::Yaml(m) => "YAML parse error: "@ + m@,
        ParseError::InvalidStructure(m) => "invalid workflow structure: "@ + m@,
    }
}

impl ParseError {
    /// The user-facing text of this error.
    pub fn message(&self) -> (r: String)
        ensures
            r@ == parse_error_text(*self),
    {
        proof {
            reveal_strlit("YAML parse error: ");
            reveal_strlit("invalid workflow structure: ");
        }
        let (head, tail) = match self {
            ParseError::Yaml(m) => ("YAML parse error: ", m),
            ParseError::InvalidStructure(m) => ("invalid workflow structure: ", m),
        };
        let mut s = head.to_string();
        crate::text::push_str(&mut s, tail.as_str());
        s
    }
}

/// `comment` without a leading `v`, when it has one.
pub open spec fn strip_lower_v(s: Seq<char>) -> Seq<char> {
    if s.len() > 0 && s[0] == 'v' {
        s.drop_first()
    } else {
        s
    }
}

/// A comment that reads like a version: `v` optional, then digits only, or a
/// dotted string that `semver` accepts.
pub open spec fn spec_comment_looks_like_version(comment: Seq<char>) -> bool {
    let w = strip_lower_v(comment);
    (w.len() > 0 && all_digits(w)) || (w.contains('.') && semver_parse(w) is Some)
}

/// The comment-to-ref comparison, as a value: `None` for no comment,
/// `Some(None)` for a match, `Some(Some(expected))` for a mismatch.
pub open spec fn spec_comment_match(
    comment: Option<Seq<char>>,
    git_ref: Option<Seq<char>>,
    pin_kind: PinKind,
) -> Option<Option<Seq<char>>> {
    match comment {
        None => None,
        Some(c) => match git_ref {
            None => Some(Some(Seq::empty())),
            Some(g) => if c == g {
                Some(None)
            } else if pin_kind == PinKind::FullSha && contains_seq(c, g) {
                Some(None)
            } else if (pin_kind == PinKind::FullSha || pin_kind == PinKind::ShortSha)
                && spec_comment_looks_like_version(c) {
                Some(None)
            } else {
                Some(Some(g))
            },
        },
    }
}

pub open spec fn opt_view(o: Option<String>) -> Option<Seq<char>> {
    match o {
        Some(s) => Some(s@),
        None => None,
    }
}

/// Whether `comment` looks like a version number.
pub fn comment_looks_like_version(comment: &str) -> (r: bool)
    ensures
        r == spec_comment_looks_like_version(comment@),
{
    let cs = chars_of(comment);
    let w = if cs.len() > 0 && cs[0] == 'v' {
        crate::text::slice_vec(&cs, 1, cs.len())
    } else {
        cs
    };
    assert(w@ == strip_lower_v(comment@));
    if w.len() > 0 {
        let mut i: usize = 0;
        let mut digits = true;
        while i < w.len()
            invariant
                i <= w.len(),
                digits == forall|j: int| 0 <= j < i ==> crate::text::is_digit(#[trigger] w@[j]),
            decreases w.len() - i,
        {
            if !digit(w[i]) {
                digits = false;
            }
            i += 1;
        }
        if digits {
            return true;
        }
    }
    if crate::text::find_char(&w, '.').is_none() {
        return false;
    }
    let text = crate::text::string_of(&w);
    parse_semver(text.as_str()).is_some()
}

/// Compare the trailing comment on a `uses:` line against the pinned ref.
pub fn comment_matches_ref(reference: &ActionReference) -> (r: CommentMatch)
    ensures
        match spec_comment_match(
            opt_view(reference.line_comment),
            opt_view(reference.git_ref),
            reference.pin_kind,
        ) {
            None => r == CommentMatch::NoComment,
            Some(None) => r == CommentMatch::Match,
            Some(Some(expected)) => r matches CommentMatch::Mismatch { comment, expected: e } && Some(
                comment@,
            ) == opt_view(reference.line_comment) && e@ == expected,
        },
{
    let comment = match &reference.line_comment {
        Some(c) => c.as_str(),
        None => return CommentMatch::NoComment,
    };
    let git_ref = match &reference.git_ref {
        Some(g) => g.as_str(),
        None => {
            return CommentMatch::Mismatch { comment: comment.to_owned(), expected: String::new() };
        },
    };
    if str_eq(comment, git_ref) {
        return CommentMatch::Match;
    }
    if reference.pin_kind == PinKind::FullSha {
        let c = chars_of(comment);
        let g = chars_of(git_ref);
        if find_seq(&c, &g).is_some() {
            return CommentMatch::Match;
        }
    }
    if (reference.pin_kind == PinKind::FullSha || reference.pin_kind == PinKind::ShortSha)
        && comment_looks_like_version(comment) {
        return CommentMatch::Match;
    }
    CommentMatch::Mismatch { comment: comment.to_owned(), expected: git_ref.to_owned() }
}

} // verus!
