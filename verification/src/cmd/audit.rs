//! What the audit command prints for a finding.
use vstd::prelude::*;

use crate::render::{debug_quoted, dec_string, push_decimal, quote_debug};
use crate::scan::audit::{IssueView, views};
use crate::scan::{AuditIssue, ReferenceReport, ScanReport, WorkflowReport};
use crate::text::push_str;

verus! {

/// The one-line description of a finding.
pub open spec fn spec_issue_label(i: IssueView) -> Seq<char> {
    match i {
        IssueView::MutableBranch => "mutable branch pin"@,
        IssueView::ShortSha => "short SHA pin"@,
        IssueView::NotShaPinned => "not pinned to full SHA"@,
        IssueView::CommentMismatch { comment, expected } => "comment mismatch (got "@ + debug_quoted(
            comment,
        ) + ", expected "@ + debug_quoted(expected) + ")"@,
        IssueView::ReleaseTooYoung { min_age, published_at } => "release too young (min "@ + min_age
            + ", published "@ + published_at + ")"@,
        IssueView::SkippedBranch => "branch pin skipped by config"@,
        IssueView::SecondaryReference { reference_kind } => "secondary reference ("@ + reference_kind
            + ")"@,
        IssueView::ResolutionFailed { message } => "resolution failed: "@ + message,
        IssueView::FloatingMajorPin { pin } => "floating major-line tag ("@ + pin + ")"@,
        IssueView::ShaProvenanceUnverifiable { sha } =>
            "SHA provenance unverifiable (no full-semver comment for "@ + sha + ")"@,
        IssueView::ShaCommentMismatch { comment, expected_sha } => "SHA/comment mismatch (comment "@
            + debug_quoted(comment) + " resolves to "@ + expected_sha + ")"@,
        IssueView::UpdateBlockedByConfig { current_version, available_version, update_level } =>
            "update blocked by "@ + update_level + " level (current "@ + current_version
            + ", available "@ + available_version + ")"@,
        IssueView::UnreleasedCommit { sha } => "unreleased commit ("@ + sha + ")"@,
        IssueView::CommentMajorLineMismatch { comment, resolved_version } =>
            "major-line comment mismatch (comment "@ + debug_quoted(comment) + ", resolved "@
            + resolved_version + ")"@,
    }
}

/// The one-line description of a finding, as the audit command prints it.
pub fn issue_label(issue: &AuditIssue) -> (r: String)
    ensures
        r@ == spec_issue_label(issue@),
{
    let mut out = String::new();
    proof {
        reveal_strlit("mutable branch pin");
        reveal_strlit("short SHA pin");
        reveal_strlit("not pinned to full SHA");
        reveal_strlit("comment mismatch (got ");
        reveal_strlit(", expected ");
        reveal_strlit(")");
        reveal_strlit("release too young (min ");
        reveal_strlit(", published ");
        reveal_strlit("branch pin skipped by config");
        reveal_strlit("secondary reference (");
        reveal_strlit("resolution failed: ");
        reveal_strlit("floating major-line tag (");
        reveal_strlit("SHA provenance unverifiable (no full-semver comment for ");
        reveal_strlit("SHA/comment mismatch (comment ");
        reveal_strlit(" resolves to ");
        reveal_strlit("update blocked by ");
        reveal_strlit(" level (current ");
        reveal_strlit(", available ");
        reveal_strlit("unreleased commit (");
        reveal_strlit("major-line comment mismatch (comment ");
        reveal_strlit(", resolved ");
    }
    match issue {
        AuditIssue::MutableBranch => push_str(&mut out, "mutable branch pin"),
        AuditIssue::ShortSha => push_str(&mut out, "short SHA pin"),
        AuditIssue::NotShaPinned => push_str(&mut out, "not pinned to full SHA"),
        AuditIssue::CommentMismatch { comment, expected } => {
            let c = quote_debug(comment.as_str());
            let e = quote_debug(expected.as_str());
            push_str(&mut out, "comment mismatch (got ");
            push_str(&mut out, c.as_str());
            push_str(&mut out, ", expected ");
            push_str(&mut out, e.as_str());
            push_str(&mut out, ")");
        },
        AuditIssue::ReleaseTooYoung { min_age, published_at } => {
            push_str(&mut out, "release too young (min ");
            push_str(&mut out, min_age.as_str());
            push_str(&mut out, ", published ");
            push_str(&mut out, published_at.as_str());
            push_str(&mut out, ")");
        },
        AuditIssue::SkippedBranch => push_str(&mut out, "branch pin skipped by config"),
        AuditIssue::SecondaryReference { reference_kind } => {
            push_str(&mut out, "secondary reference (");
            push_str(&mut out, reference_kind.as_str());
            push_str(&mut out, ")");
        },
        AuditIssue::ResolutionFailed { message } => {
            push_str(&mut out, "resolution failed: ");
            push_str(&mut out, message.as_str());
        },
        AuditIssue::FloatingMajorPin { pin } => {
            push_str(&mut out, "floating major-line tag (");
            push_str(&mut out, pin.as_str());
            push_str(&mut out, ")");
        },
        AuditIssue::ShaProvenanceUnverifiable { sha } => {
            push_str(&mut out, "SHA provenance unverifiable (no full-semver comment for ");
            push_str(&mut out, sha.as_str());
            push_str(&mut out, ")");
        },
        AuditIssue::ShaCommentMismatch { comment, expected_sha } => {
            let c = quote_debug(comment.as_str());
            push_str(&mut out, "SHA/comment mismatch (comment ");
            push_str(&mut out, c.as_str());
            push_str(&mut out, " resolves to ");
            push_str(&mut out, expected_sha.as_str());
            push_str(&mut out, ")");
        },
        AuditIssue::UpdateBlockedByConfig { current_version, available_version, update_level } => {
            push_str(&mut out, "update blocked by ");
            push_str(&mut out, update_level.as_str());
            push_str(&mut out, " level (current ");
            push_str(&mut out, current_version.as_str());
            push_str(&mut out, ", available ");
            push_str(&mut out, available_version.as_str());
            push_str(&mut out, ")");
        },
        AuditIssue::UnreleasedCommit { sha } => {
            push_str(&mut out, "unreleased commit (");
            push_str(&mut out, sha.as_str());
            push_str(&mut out, ")");
        },
        AuditIssue::CommentMajorLineMismatch { comment, resolved_version } => {
            let c = quote_debug(comment.as_str());
            push_str(&mut out, "major-line comment mismatch (comment ");
            push_str(&mut out, c.as_str());
            push_str(&mut out, ", resolved ");
            push_str(&mut out, resolved_version.as_str());
            push_str(&mut out, ")");
        },
    }
    out
}


/// The finding lines of one reference: `  - <raw>: <label>` each.
pub open spec fn issue_lines(raw: Seq<char>, issues: Seq<IssueView>) -> Seq<char>
    decreases issues.len(),
{
    if issues.len() == 0 {
        Seq::empty()
    } else {
        issue_lines(raw, issues.drop_last()) + "  - "@ + raw + ": "@ + spec_issue_label(issues.last()) + "\n"@
    }
}

pub open spec fn reference_lines(refs: Seq<ReferenceReport>) -> Seq<char>
    decreases refs.len(),
{
    if refs.len() == 0 {
        Seq::empty()
    } else {
        reference_lines(refs.drop_last()) + issue_lines(
            refs.last().resolved.located.reference.raw@,
            views(refs.last().issues@),
        )
    }
}

pub open spec fn has_issues(refs: Seq<ReferenceReport>) -> bool {
    exists|k: int| 0 <= k < refs.len() && (#[trigger] refs[k]).issues@.len() > 0
}

/// The block of one workflow: nothing when it has no findings; else its
/// path, its name, its findings and an empty line.
pub open spec fn workflow_block(w: WorkflowReport) -> Seq<char> {
    if !has_issues(w.references@) {
        Seq::empty()
    } else {
        w.path@ + "\n"@ + match w.name {
            Some(n) => "  name: "@ + n@ + "\n"@,
            None => Seq::empty(),
        } + reference_lines(w.references@) + "\n"@
    }
}

pub open spec fn workflow_blocks(ws: Seq<WorkflowReport>) -> Seq<char>
    decreases ws.len(),
{
    if ws.len() == 0 {
        Seq::empty()
    } else {
        workflow_blocks(ws.drop_last()) + workflow_block(ws.last())
    }
}

/// The plain-text audit report.
pub open spec fn spec_audit_plain(r: ScanReport) -> Seq<char> {
    if r.workflows@.len() == 0 {
        "No workflow files found under .github/workflows/\n"@
    } else {
        "Scanned "@ + dec_string(r.stats.workflows as nat) + " workflow(s), "@ + dec_string(
            r.stats.references as nat,
        ) + " reference(s), "@ + dec_string(r.stats.issues as nat) + " issue(s)\n\n"@
            + workflow_blocks(r.workflows@) + if r.stats.issues == 0 {
            "No issues found.\n"@
        } else {
            Seq::empty()
        }
    }
}

fn push_issue_lines(out: &mut String, reference: &ReferenceReport)
    ensures
        final(out)@ == old(out)@ + issue_lines(
            reference.resolved.located.reference.raw@,
            views(reference.issues@),
        ),
{
    proof {
        reveal_strlit("  - ");
        reveal_strlit(": ");
        reveal_strlit("\n");
    }
    let raw = reference.resolved.located.reference.raw.as_str();
    let ghost start = out@;
    let mut i: usize = 0;
    while i < reference.issues.len()
        invariant
            0 <= i <= reference.issues.len(),
            out@ == start + issue_lines(raw@, views(reference.issues@.take(i as int))),
        decreases reference.issues.len() - i,
    {
        proof {
            assert(views(reference.issues@.take(i as int + 1)).drop_last() =~= views(
                reference.issues@.take(i as int),
            ));
            assert(views(reference.issues@.take(i as int + 1)).last() == reference.issues@[i as int]@);
        }
        let label = issue_label(&reference.issues[i]);
        push_str(out, "  - ");
        push_str(out, raw);
        push_str(out, ": ");
        push_str(out, label.as_str());
        push_str(out, "\n");
        i += 1;
    }
    proof {
        assert(reference.issues@.take(reference.issues@.len() as int) == reference.issues@);
    }
}

fn push_workflow_block(out: &mut String, w: &WorkflowReport)
    ensures
        final(out)@ == old(out)@ + workflow_block(*w),
{
    proof {
        reveal_strlit("\n");
        reveal_strlit("  name: ");
    }
    let mut any = false;
    let mut k: usize = 0;
    while k < w.references.len()
        invariant
            0 <= k <= w.references.len(),
            any == exists|j: int| 0 <= j < k && (#[trigger] w.references@[j]).issues@.len() > 0,
        decreases w.references.len() - k,
    {
        if w.references[k].issues.len() > 0 {
            any = true;
        }
        k += 1;
    }
    if !any {
        assert(out@ =~= out@ + Seq::<char>::empty());
        return ;
    }
    let ghost start = out@;
    push_str(out, w.path.as_str());
    push_str(out, "\n");
    match &w.name {
        Some(n) => {
            push_str(out, "  name: ");
            push_str(out, n.as_str());
            push_str(out, "\n");
        },
        None => {},
    }
    let ghost head = out@;
    let mut i: usize = 0;
    while i < w.references.len()
        invariant
            0 <= i <= w.references.len(),
            out@ == head + reference_lines(w.references@.take(i as int)),
        decreases w.references.len() - i,
    {
        proof {
            assert(w.references@.take(i as int + 1).drop_last() == w.references@.take(i as int));
        }
        push_issue_lines(out, &w.references[i]);
        i += 1;
    }
    proof {
        assert(w.references@.take(w.references@.len() as int) == w.references@);
    }
    push_str(out, "\n");
}

/// The plain-text audit report, as the audit command prints it.
pub fn audit_plain_text(report: &ScanReport) -> (r: String)
    ensures
        r@ == spec_audit_plain(*report),
{
    proof {
        reveal_strlit("No workflow files found under .github/workflows/\n");
        reveal_strlit("Scanned ");
        reveal_strlit(" workflow(s), ");
        reveal_strlit(" reference(s), ");
        reveal_strlit(" issue(s)\n\n");
        reveal_strlit("No issues found.\n");
    }
    if report.workflows.len() == 0 {
        return "No workflow files found under .github/workflows/\n".to_string();
    }
    let mut out = String::new();
    push_str(&mut out, "Scanned ");
    push_decimal(&mut out, report.stats.workflows as u64);
    push_str(&mut out, " workflow(s), ");
    push_decimal(&mut out, report.stats.references as u64);
    push_str(&mut out, " reference(s), ");
    push_decimal(&mut out, report.stats.issues as u64);
    push_str(&mut out, " issue(s)\n\n");
    let ghost head = out@;
    let mut i: usize = 0;
    while i < report.workflows.len()
        invariant
            0 <= i <= report.workflows.len(),
            out@ == head + workflow_blocks(report.workflows@.take(i as int)),
        decreases report.workflows.len() - i,
    {
        proof {
            assert(report.workflows@.take(i as int + 1).drop_last() == report.workflows@.take(i as int));
        }
        push_workflow_block(&mut out, &report.workflows[i]);
        i += 1;
    }
    proof {
        assert(report.workflows@.take(report.workflows@.len() as int) == report.workflows@);
    }
    if report.stats.issues == 0 {
        push_str(&mut out, "No issues found.\n");
    }
    out
}

/// The audit command's exit status: 1 when the scan found issues, else 0.
pub fn audit_exit_code(report: &ScanReport) -> (r: u8)
    ensures
        r == (if report.stats.issues > 0 {
            1u8
        } else {
            0u8
        }),
{
    if report.stats.issues > 0 {
        1
    } else {
        0
    }
}

} // verus!
