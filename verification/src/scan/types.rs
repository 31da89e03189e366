//! Shared types produced by the scan pipeline.
use vstd::prelude::*;

use crate::engine::{ActionReference, CommentMatch};
use crate::github::ResolvedRef;

verus! {

/// A `uses:` reference with its source workflow path.
#[derive(Debug, Clone, PartialEq, Eq)]
pub struct LocatedReference {
    /// Workflow path relative to the scan root.
    pub workflow_path: String,
    /// Parsed reference and its source location.
    pub reference: ActionReference,
}

/// A reference after GitHub resolution and comment matching.
#[derive(Debug, Clone, PartialEq, Eq)]
pub struct ResolvedReference {
    /// Parsed reference paired with its workflow path.
    pub located: LocatedReference,
    /// Commit resolution for the written ref.
    pub current: ResolvedRef,
    /// Syntactic comparison between the written ref and trailing comment.
    pub comment_match: CommentMatch,
}

/// Audit finding for a single reference.
#[derive(Debug, Clone, PartialEq, Eq)]
pub enum AuditIssue {
    /// The reference uses a mutable branch name.
    MutableBranch,
    /// The reference uses an abbreviated commit SHA.
    ShortSha,
    /// The reference is not pinned to a full commit SHA.
    NotShaPinned,
    /// The trailing comment does not describe the written ref.
    CommentMismatch {
        /// Comment text without the leading `#`.
        comment: String,
        /// Ref or version the comment was expected to describe.
        expected: String,
    },
    /// A SHA pin has no full-semver comment whose tag could vouch for it.
    ShaProvenanceUnverifiable {
        /// The pinned commit SHA.
        sha: String,
    },
    /// The release tag named in a SHA pin's comment resolves to another commit.
    ShaCommentMismatch {
        /// The tag written in the comment.
        comment: String,
        /// The commit SHA that tag resolves to.
        expected_sha: String,
    },
    /// The resolved release has not reached the configured minimum age.
    ReleaseTooYoung {
        /// Configured relative minimum age.
        min_age: String,
        /// RFC 3339 publication time reported by GitHub.
        published_at: String,
    },
    /// Branch processing is disabled by configuration.
    SkippedBranch,
    /// The reference kind is inventoried but is not fully audited or updated.
    SecondaryReference {
        /// Human-readable reference kind label.
        reference_kind: String,
    },
    /// The current written ref could not be resolved through GitHub.
    ResolutionFailed {
        /// User-facing resolution failure summary.
        message: String,
    },
    /// The written tag floats on a major line such as `v4`.
    FloatingMajorPin {
        /// Floating tag as written in the workflow.
        pin: String,
    },
    /// The pinned commit does not match an official GitHub release.
    UnreleasedCommit {
        /// Full pinned commit SHA.
        sha: String,
    },
    /// A newer release exists but exceeds the configured update level.
    UpdateBlockedByConfig {
        /// Current semantic version label.
        current_version: String,
        /// Newest available semantic version label.
        available_version: String,
        /// Configured update level that rejected the release.
        update_level: String,
    },
    /// A major-only SHA comment does not match the resolved release major.
    CommentMajorLineMismatch {
        /// Major-line comment written in the workflow.
        comment: String,
        /// Full release version inferred from the resolved commit.
        resolved_version: String,
    },
}

/// What came of resolving the release tag named in a SHA pin's comment.
#[derive(Debug, Clone, PartialEq, Eq)]
pub enum CommentTagResolution {
    /// The pin is not a SHA, or its comment names no full semantic version.
    NotApplicable,
    /// The comment's tag resolved to `sha`.
    Resolved { tag: String, sha: String },
    /// The comment's tag could not be resolved.
    Failed { tag: String, reason: String },
}

/// Why an update was proposed.
#[derive(Debug, Clone, PartialEq, Eq)]
pub enum PlanReason {
    /// A newer eligible semantic version was selected.
    SemverBump {
        /// Largest semver component changed by the proposal.
        level: String,
    },
    /// The same release should be written with a corrected SHA.
    RePinSha,
    /// A mutable or tag reference should be converted to a SHA pin.
    PinToSha,
    /// The resolved release is current but its written representation is normalized.
    AlreadyUpToDate,
}

/// A proposed update for one reference.
#[derive(Debug, Clone, PartialEq, Eq)]
pub struct PlannedChange {
    /// Pin as written in the workflow today (SHA, tag, or branch).
    pub from_ref: String,
    /// Target pin after apply (SHA or tag per the pin mode).
    pub to_ref: String,
    /// Semver tag (or tag-shaped ref) currently in use, when known.
    pub from_version: Option<String>,
    /// Full commit SHA resolved for the selected target release.
    pub to_sha: String,
    /// Target semver tag, written as a line comment when pinning to SHA.
    pub to_comment: Option<String>,
    /// Why this change was proposed.
    pub reason: PlanReason,
}

/// Report for a single `uses:` reference.
#[derive(Debug, Clone, PartialEq, Eq)]
pub struct ReferenceReport {
    /// Parsed reference enriched with GitHub and comment information.
    pub resolved: ResolvedReference,
    /// Audit findings for this reference, in evaluation order.
    pub issues: Vec<AuditIssue>,
    /// Proposed update, or `None` when no safe change is available.
    pub planned: Option<PlannedChange>,
}

/// Report for one workflow file.
#[derive(Debug, Clone, PartialEq, Eq)]
pub struct WorkflowReport {
    /// Workflow path relative to the scan root.
    pub path: String,
    /// Top-level workflow `name`, when present.
    pub name: Option<String>,
    /// Reference reports in document order.
    pub references: Vec<ReferenceReport>,
}

/// Aggregate scan statistics.
#[derive(Debug, Clone, Copy, PartialEq, Eq)]
pub struct ScanStats {
    /// Number of workflow files scanned.
    pub workflows: usize,
    /// Total number of parsed `uses:` references.
    pub references: usize,
    /// References receiving full primary audit rules.
    pub primary: usize,
    /// References inventoried under secondary audit rules.
    pub secondary: usize,
    /// Total number of emitted audit issues.
    pub issues: usize,
    /// References with a proposed update.
    pub planned: usize,
    /// References blocked from planning by release age, skipped branches, or resolution failure.
    pub blocked: usize,
    /// Updates available but excluded by the configured semver level.
    pub config_blocked: usize,
}

impl Default for ScanStats {
    fn default() -> (r: Self)
        ensures
            r.workflows == 0 && r.references == 0 && r.primary == 0 && r.secondary == 0
                && r.issues == 0 && r.planned == 0 && r.blocked == 0 && r.config_blocked == 0,
    {
        ScanStats {
            workflows: 0,
            references: 0,
            primary: 0,
            secondary: 0,
            issues: 0,
            planned: 0,
            blocked: 0,
            config_blocked: 0,
        }
    }
}

/// Full workspace scan result shared by audit and update commands.
#[derive(Debug, Clone, PartialEq, Eq)]
pub struct ScanReport {
    /// Workflow reports in lexicographic path order.
    pub workflows: Vec<WorkflowReport>,
    /// Aggregate counts for the complete scan.
    pub stats: ScanStats,
}

/// Identifies one planned row to apply (workflow file + source line).
#[derive(Debug, Clone, PartialEq, Eq)]
pub struct ApplyTarget {
    /// Workflow path relative to the apply root.
    pub workflow_path: String,
    /// One-based source line containing the planned `uses:` reference.
    pub line: u32,
}

impl ApplyTarget {
    /// A field-by-field copy of this target.
    pub fn clone_target(&self) -> (r: Self)
        ensures
            r == *self,
    {
        ApplyTarget { workflow_path: self.workflow_path.clone(), line: self.line }
    }
}

/// One successfully applied update.
#[derive(Debug, Clone, PartialEq, Eq)]
pub struct AppliedChange {
    /// Workflow path relative to the apply root.
    pub workflow_path: String,
    /// One-based source line that was, or in dry-run mode would be, rewritten.
    pub line: u32,
    /// Original action reference used to identify the change.
    pub action: String,
    /// Human-readable current pin label.
    pub from: String,
    /// Human-readable target pin label.
    pub to: String,
}

/// A single apply failure.
#[derive(Debug, Clone, PartialEq, Eq)]
pub struct ApplyFailure {
    /// Workflow path relative to the apply root.
    pub workflow_path: String,
    /// One-based source line associated with the failed target.
    pub line: u32,
    /// User-facing reason the target could not be applied.
    pub message: String,
}

/// Result of applying planned updates.
#[derive(Debug, Clone, PartialEq, Eq)]
pub struct ApplyReport {
    /// Changes written successfully, or changes that would be written in dry-run mode.
    pub applied: Vec<AppliedChange>,
    /// Requested targets that could not be verified or written.
    pub failures: Vec<ApplyFailure>,
}

/// The one-line summary of an apply report.
pub open spec fn spec_apply_summary(applied: nat, failed: nat) -> Seq<char> {
    if applied == 0 && failed == 0 {
        "no updates applied"@
    } else {
        "applied "@ + crate::render::dec_string(applied) + " update(s)"@ + if failed > 0 {
            ", "@ + crate::render::dec_string(failed) + " failed"@
        } else {
            Seq::empty()
        }
    }
}

impl ApplyReport {
    /// The one-line summary: how many updates were applied and how many failed.
    pub fn summary(&self) -> (r: String)
        ensures
            r@ == spec_apply_summary(self.applied@.len(), self.failures@.len()),
    {
        proof {
            reveal_strlit("no updates applied");
            reveal_strlit("applied ");
            reveal_strlit(" update(s)");
            reveal_strlit(", ");
            reveal_strlit(" failed");
        }
        if self.applied.len() == 0 && self.failures.len() == 0 {
            return "no updates applied".to_string();
        }
        let mut s = String::new();
        crate::text::push_str(&mut s, "applied ");
        crate::render::push_decimal(&mut s, self.applied.len() as u64);
        crate::text::push_str(&mut s, " update(s)");
        if self.failures.len() > 0 {
            crate::text::push_str(&mut s, ", ");
            crate::render::push_decimal(&mut s, self.failures.len() as u64);
            crate::text::push_str(&mut s, " failed");
        }
        s
    }
}

impl Default for ApplyReport {
    fn default() -> (r: Self)
        ensures
            r.applied@.len() == 0,
            r.failures@.len() == 0,
    {
        ApplyReport { applied: Vec::new(), failures: Vec::new() }
    }
}

/// All reference reports of `ws`, workflow after workflow, in document order.
pub open spec fn flat_references(ws: Seq<WorkflowReport>) -> Seq<ReferenceReport>
    decreases ws.len(),
{
    if ws.len() == 0 {
        Seq::empty()
    } else {
        flat_references(ws.drop_last()) + ws.last().references@
    }
}

/// The reports of `refs` that carry a planned change, each with `path`, in order.
pub open spec fn planned_of(path: String, refs: Seq<ReferenceReport>) -> Seq<(String, ReferenceReport)>
    decreases refs.len(),
{
    if refs.len() == 0 {
        Seq::empty()
    } else {
        let rest = planned_of(path, refs.drop_last());
        if refs.last().planned is Some {
            rest.push((path, refs.last()))
        } else {
            rest
        }
    }
}

/// Every planned reference of `ws` with its workflow path, in document order.
pub open spec fn flat_planned(ws: Seq<WorkflowReport>) -> Seq<(String, ReferenceReport)>
    decreases ws.len(),
{
    if ws.len() == 0 {
        Seq::empty()
    } else {
        flat_planned(ws.drop_last()) + planned_of(ws.last().path, ws.last().references@)
    }
}

pub proof fn lemma_planned_of_member(path: String, refs: Seq<ReferenceReport>, k: int)
    requires
        0 <= k < planned_of(path, refs).len(),
    ensures
        exists|i: int|
            0 <= i < refs.len() && planned_of(path, refs)[k] == (path, refs[i]) && (
            #[trigger] refs[i]).planned is Some,
    decreases refs.len(),
{
    let rest = planned_of(path, refs.drop_last());
    if k < rest.len() {
        lemma_planned_of_member(path, refs.drop_last(), k);
        let i = choose|i: int|
            0 <= i < refs.drop_last().len() && rest[k] == (path, refs.drop_last()[i]) && (
            #[trigger] refs.drop_last()[i]).planned is Some;
        assert(refs.drop_last()[i] == refs[i]);
        if refs.last().planned is Some {
            assert(planned_of(path, refs)[k] == rest[k]);
        }
    } else {
        assert(refs.last().planned is Some);
        assert(refs[refs.len() - 1] == refs.last());
    }
}

pub proof fn lemma_flat_planned_member(ws: Seq<WorkflowReport>, k: int)
    requires
        0 <= k < flat_planned(ws).len(),
    ensures
        exists|w: int, i: int|
            0 <= w < ws.len() && 0 <= i < ws[w].references@.len() && flat_planned(ws)[k] == (
                ws[w].path,
                ws[w].references@[i],
            ) && (#[trigger] ws[w].references@[i]).planned is Some,
    decreases ws.len(),
{
    let rest = flat_planned(ws.drop_last());
    let last = planned_of(ws.last().path, ws.last().references@);
    if k < rest.len() {
        lemma_flat_planned_member(ws.drop_last(), k);
        let (w, i) = choose|w: int, i: int|
            0 <= w < ws.drop_last().len() && 0 <= i < ws.drop_last()[w].references@.len()
                && rest[k] == (ws.drop_last()[w].path, ws.drop_last()[w].references@[i]) && (
            #[trigger] ws.drop_last()[w].references@[i]).planned is Some;
        assert(ws.drop_last()[w] == ws[w]);
        assert(flat_planned(ws)[k] == rest[k]);
    } else {
        lemma_planned_of_member(ws.last().path, ws.last().references@, k - rest.len());
        let i = choose|i: int|
            0 <= i < ws.last().references@.len() && last[k - rest.len()] == (
                ws.last().path,
                ws.last().references@[i],
            ) && (#[trigger] ws.last().references@[i]).planned is Some;
        assert(ws[ws.len() - 1] == ws.last());
        assert(flat_planned(ws)[k] == last[k - rest.len()]);
    }
}

pub open spec fn derefs<A>(s: Seq<&A>) -> Seq<A> {
    s.map_values(|x: &A| *x)
}

pub open spec fn derefs_pairs<A, B>(s: Seq<(&A, &B)>) -> Seq<(A, B)> {
    s.map_values(|x: (&A, &B)| (*x.0, *x.1))
}

impl ScanReport {
    /// All reference reports across workflows, in document order.
    pub fn all_references(&self) -> (r: Vec<&ReferenceReport>)
        ensures
            derefs(r@) == flat_references(self.workflows@),
    {
        let mut out: Vec<&ReferenceReport> = Vec::new();
        let mut w: usize = 0;
        while w < self.workflows.len()
            invariant
                0 <= w <= self.workflows.len(),
                derefs(out@) == flat_references(self.workflows@.take(w as int)),
            decreases self.workflows.len() - w,
        {
            let refs = &self.workflows[w].references;
            let ghost before = out@;
            let mut i: usize = 0;
            while i < refs.len()
                invariant
                    0 <= i <= refs.len(),
                    refs == &self.workflows@[w as int].references,
                    out@ == before + refs@.take(i as int).map_values(|x: ReferenceReport| &x),
                    derefs(before) == flat_references(self.workflows@.take(w as int)),
                decreases refs.len() - i,
            {
                out.push(&refs[i]);
                proof {
                    assert(refs@.take(i as int + 1).map_values(|x: ReferenceReport| &x)
                        == refs@.take(i as int).map_values(|x: ReferenceReport| &x).push(&refs@[i as int]));
                }
                i += 1;
            }
            proof {
                assert(refs@.take(refs@.len() as int) == refs@);
                assert(self.workflows@.take(w as int + 1).drop_last() == self.workflows@.take(w as int));
                assert(derefs(out@) == derefs(before) + refs@);
            }
            w += 1;
        }
        proof {
            assert(self.workflows@.take(self.workflows@.len() as int) == self.workflows@);
        }
        out
    }

    /// References with a planned change, each with its workflow path.
    pub fn planned_changes(&self) -> (r: Vec<(&String, &ReferenceReport)>)
        ensures
            derefs_pairs(r@) == flat_planned(self.workflows@),
    {
        let mut out: Vec<(&String, &ReferenceReport)> = Vec::new();
        let mut w: usize = 0;
        while w < self.workflows.len()
            invariant
                0 <= w <= self.workflows.len(),
                derefs_pairs(out@) == flat_planned(self.workflows@.take(w as int)),
            decreases self.workflows.len() - w,
        {
            let wf = &self.workflows[w];
            let refs = &wf.references;
            let ghost before = derefs_pairs(out@);
            let mut i: usize = 0;
            while i < refs.len()
                invariant
                    0 <= i <= refs.len(),
                    wf == &self.workflows@[w as int],
                    refs == &wf.references,
                    derefs_pairs(out@) == before + planned_of(wf.path, refs@.take(i as int)),
                    before == flat_planned(self.workflows@.take(w as int)),
                decreases refs.len() - i,
            {
                proof {
                    assert(refs@.take(i as int + 1).drop_last() == refs@.take(i as int));
                }
                if refs[i].planned.is_some() {
                    let ghost prev = out@;
                    out.push((&wf.path, &refs[i]));
                    proof {
                        assert(derefs_pairs(out@) == derefs_pairs(prev).push((wf.path, refs@[i as int])));
                    }
                }
                i += 1;
            }
            proof {
                assert(refs@.take(refs@.len() as int) == refs@);
                assert(self.workflows@.take(w as int + 1).drop_last() == self.workflows@.take(w as int));
            }
            w += 1;
        }
        proof {
            assert(self.workflows@.take(self.workflows@.len() as int) == self.workflows@);
        }
        out
    }
}


/// Errors that stop a scan.
#[derive(Debug, Clone, PartialEq, Eq)]
pub enum ScanError {
    /// Workflow target discovery failed.
    Discovery(crate::discovery::DiscoveryError),
    /// A workflow or apply target could not be read or written (the error's text).
    Io(String),
    /// A discovered workflow could not be parsed.
    Parse { path: String, error: crate::engine::ParseError },
    /// A GitHub operation required for a complete scan failed.
    GitHub(crate::github::GitHubError),
}

/// The user-facing text of a scan error.
pub open spec fn scan_error_text(e: ScanError) -> Seq<char> {
    match e {
        ScanError::Discovery(d) => crate::discovery::discovery_error_text(d),
        ScanError::Io(m) => "I/O error: "@ + m@,
        ScanError::Parse { path, error } => path@ + ": "@ + crate::engine::parse_error_text(error),
        ScanError::GitHub(g) => crate::github::github_error_text(g),
    }
}

impl ScanError {
    /// The user-facing text of this error.
    pub fn message(&self) -> (r: String)
        ensures
            r@ == scan_error_text(*self),
    {
        proof {
            reveal_strlit("I/O error: ");
            reveal_strlit(": ");
        }
        match self {
            ScanError::Discovery(d) => d.message(),
            ScanError::Io(m) => {
                let mut s = "I/O error: ".to_string();
                crate::text::push_str(&mut s, m.as_str());
                s
            },
            ScanError::Parse { path, error } => {
                let mut s = path.clone();
                crate::text::push_str(&mut s, ": ");
                let e = error.message();
                crate::text::push_str(&mut s, e.as_str());
                s
            },
            ScanError::GitHub(g) => g.message(),
        }
    }

    /// The text the interactive view shows for a failed scan: the message,
    /// but an I/O error without its prefix.
    pub fn brief_message(&self) -> (r: String)
        ensures
            self matches ScanError::Io(m) ==> r@ == m@,
            !(self is Io) ==> r@ == scan_error_text(*self),
    {
        match self {
            ScanError::Io(m) => m.clone(),
            _ => self.message(),
        }
    }
}

} // verus!
