//! The audit report over discovered references: every reference that is
//! not pinned to a full SHA is a finding.
use vstd::prelude::*;

use crate::discovery::DiscoveredActionRef;
use crate::github::{is_full_sha, spec_is_full_sha};

use super::{finding_id, finding_id_text};

verus! {

/// The outcome of an audit: how many references were read, and the findings.
#[derive(Debug, Clone, PartialEq, Eq)]
pub struct AuditReport {
    pub references: usize,
    pub findings: Vec<AuditFinding>,
}

/// One finding of the report.
#[derive(Debug, Clone, PartialEq, Eq)]
pub struct AuditFinding {
    pub id: String,
    pub kind: AuditFindingKind,
    pub severity: AuditSeverity,
    pub file: String,
    pub line: usize,
    pub action: AuditAction,
    pub message: String,
    pub recommendation: String,
    pub fixable: bool,
    pub expected_sha: Option<String>,
}

/// What a finding is about.
#[derive(Debug, Clone, Copy, PartialEq, Eq, Structural)]
pub enum AuditFindingKind {
    MutableRef,
}

impl AuditFindingKind {
    /// The machine-readable name of the kind.
    pub fn as_str(self) -> (r: &'static str)
        ensures
            r@ == "mutable_ref"@,
    {
        proof {
            reveal_strlit("mutable_ref");
        }
        match self {
            AuditFindingKind::MutableRef => "mutable_ref",
        }
    }
}

/// How serious a finding is.
#[derive(Debug, Clone, Copy, PartialEq, Eq, Structural)]
pub enum AuditSeverity {
    Error,
}

impl AuditSeverity {
    /// The machine-readable name of the severity.
    pub fn as_str(self) -> (r: &'static str)
        ensures
            r@ == "error"@,
    {
        proof {
            reveal_strlit("error");
        }
        match self {
            AuditSeverity::Error => "error",
        }
    }
}

/// The action that a finding names.
#[derive(Debug, Clone, PartialEq, Eq)]
pub struct AuditAction {
    pub owner: String,
    pub name: String,
    pub repo: String,
    pub path: String,
    pub ref_name: String,
}

/// How many of `fs` can be fixed.
pub open spec fn count_fixable_findings(fs: Seq<AuditFinding>) -> nat
    decreases fs.len(),
{
    if fs.len() == 0 {
        0
    } else {
        count_fixable_findings(fs.drop_last()) + if fs.last().fixable {
            1nat
        } else {
            0nat
        }
    }
}

impl AuditReport {
    /// The audit found nothing.
    pub fn ok(&self) -> (r: bool)
        ensures
            r == (self.findings@.len() == 0),
    {
        self.findings.len() == 0
    }

    /// The number of findings that can be fixed.
    pub fn fixable_count(&self) -> (r: usize)
        ensures
            r == count_fixable_findings(self.findings@),
    {
        let mut n: usize = 0;
        let mut i: usize = 0;
        while i < self.findings.len()
            invariant
                0 <= i <= self.findings.len(),
                n == count_fixable_findings(self.findings@.take(i as int)),
                n <= i,
            decreases self.findings.len() - i,
        {
            proof {
                assert(self.findings@.take(i as int + 1).drop_last() == self.findings@.take(i as int));
            }
            if self.findings[i].fixable {
                n = n + 1;
            }
            i += 1;
        }
        proof {
            assert(self.findings@.take(self.findings@.len() as int) == self.findings@);
        }
        n
    }
}

/// The references that are not pinned to a full SHA, in order.
pub open spec fn mutable_refs(refs: Seq<DiscoveredActionRef>) -> Seq<DiscoveredActionRef>
    decreases refs.len(),
{
    if refs.len() == 0 {
        Seq::empty()
    } else if !spec_is_full_sha(refs.last().ref_name@) {
        mutable_refs(refs.drop_last()).push(refs.last())
    } else {
        mutable_refs(refs.drop_last())
    }
}

pub proof fn lemma_mutable_refs_len(refs: Seq<DiscoveredActionRef>)
    ensures
        mutable_refs(refs).len() <= refs.len(),
    decreases refs.len(),
{
    if refs.len() > 0 {
        lemma_mutable_refs_len(refs.drop_last());
    }
}

/// `f` is the finding numbered `n` for the reference `a`.
pub open spec fn is_report_finding(f: AuditFinding, n: nat, a: DiscoveredActionRef) -> bool {
    &&& f.id@ == finding_id(n)
    &&& f.kind == AuditFindingKind::MutableRef
    &&& f.severity == AuditSeverity::Error
    &&& f.file == a.file
    &&& f.line == a.line
    &&& f.action.owner == a.owner
    &&& f.action.name == a.name
    &&& f.action.repo == a.repo
    &&& f.action.path == a.path
    &&& f.action.ref_name == a.ref_name
    &&& f.message@ == "Action is pinned to a mutable tag"@
    &&& f.recommendation@ == "Pin to a full SHA"@
    &&& f.fixable
    &&& f.expected_sha is None
}

fn report_finding(id: u64, a: &DiscoveredActionRef) -> (r: AuditFinding)
    ensures
        is_report_finding(r, id as nat, *a),
{
    proof {
        reveal_strlit("Action is pinned to a mutable tag");
        reveal_strlit("Pin to a full SHA");
    }
    AuditFinding {
        id: finding_id_text(id),
        kind: AuditFindingKind::MutableRef,
        severity: AuditSeverity::Error,
        file: a.file.clone(),
        line: a.line,
        action: AuditAction {
            owner: a.owner.clone(),
            name: a.name.clone(),
            repo: a.repo.clone(),
            path: a.path.clone(),
            ref_name: a.ref_name.clone(),
        },
        message: "Action is pinned to a mutable tag".to_string(),
        recommendation: "Pin to a full SHA".to_string(),
        fixable: true,
        expected_sha: None,
    }
}

/// Audits the references: one finding for each reference that is not pinned
/// to a full SHA, numbered from 1 in order.
pub fn audit_references(references: &[DiscoveredActionRef]) -> (r: AuditReport)
    ensures
        r.references == references@.len(),
        r.findings@.len() == mutable_refs(references@).len(),
        forall|k: int|
            0 <= k < r.findings@.len() ==> is_report_finding(
                #[trigger] r.findings@[k],
                (k + 1) as nat,
                mutable_refs(references@)[k],
            ),
{
    let mut findings: Vec<AuditFinding> = Vec::new();
    let mut i: usize = 0;
    while i < references.len()
        invariant
            0 <= i <= references.len(),
            findings@.len() == mutable_refs(references@.take(i as int)).len(),
            findings@.len() <= i,
            forall|k: int|
                0 <= k < findings@.len() ==> is_report_finding(
                    #[trigger] findings@[k],
                    (k + 1) as nat,
                    mutable_refs(references@.take(i as int))[k],
                ),
        decreases references.len() - i,
    {
        proof {
            assert(references@.take(i as int + 1).drop_last() == references@.take(i as int));
            assert(references@.take(i as int + 1).last() == references@[i as int]);
        }
        if !is_full_sha(references[i].ref_name.as_str()) {
            let n = findings.len() as u64 + 1;
            let f = report_finding(n, &references[i]);
            findings.push(f);
        }
        i += 1;
    }
    proof {
        assert(references@.take(references@.len() as int) == references@);
    }
    AuditReport { references: references.len(), findings }
}

/// One line of the human-readable audit: `file:line: kind: repo@ref`.
pub open spec fn report_line(f: AuditFinding) -> Seq<char> {
    f.file@ + ":"@ + crate::render::dec_string(f.line as nat) + ": "@ + "mutable_ref"@ + ": "@ + f.action.repo@
        + "@"@ + f.action.ref_name@ + "\n"@
}

pub open spec fn report_lines(fs: Seq<AuditFinding>) -> Seq<char>
    decreases fs.len(),
{
    if fs.len() == 0 {
        Seq::empty()
    } else {
        report_lines(fs.drop_last()) + report_line(fs.last())
    }
}

/// The human-readable audit: a line per finding, or a note that there is
/// none.
pub open spec fn human_text(r: AuditReport) -> Seq<char> {
    if r.findings@.len() == 0 {
        "No audit findings.\n"@
    } else {
        report_lines(r.findings@)
    }
}

impl AuditReport {
    /// The report as people read it: one line per finding.
    pub fn human_report(&self) -> (r: String)
        ensures
            r@ == human_text(*self),
    {
        let mut out = String::new();
        if self.ok() {
            crate::text::push_str(&mut out, "No audit findings.\n");
            return out;
        }
        let mut i: usize = 0;
        while i < self.findings.len()
            invariant
                0 <= i <= self.findings.len(),
                out@ == report_lines(self.findings@.take(i as int)),
            decreases self.findings.len() - i,
        {
            proof {
                assert(self.findings@.take(i as int + 1).drop_last() =~= self.findings@.take(i as int));
            }
            let f = &self.findings[i];
            let ghost before = out@;
            crate::text::push_str(&mut out, f.file.as_str());
            crate::text::push_str(&mut out, ":");
            crate::render::push_decimal(&mut out, f.line as u64);
            crate::text::push_str(&mut out, ": ");
            crate::text::push_str(&mut out, f.kind.as_str());
            crate::text::push_str(&mut out, ": ");
            crate::text::push_str(&mut out, f.action.repo.as_str());
            crate::text::push_str(&mut out, "@");
            crate::text::push_str(&mut out, f.action.ref_name.as_str());
            crate::text::push_str(&mut out, "\n");
            proof {
                assert(out@ =~= before + report_line(*f));
            }
            i += 1;
        }
        proof {
            assert(self.findings@.take(self.findings@.len() as int) =~= self.findings@);
        }
        out
    }
}

} // verus!
