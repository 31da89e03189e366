//! Audit rules applied to resolved references.
use vstd::prelude::*;

use crate::clock::{INSTANT_BOUND, now_nanos, parse_rfc3339, rfc3339_nanos};
use crate::config::{
    ActioneerConfig, PinMode, RelativeDuration, UpdateLevel, duration_label, update_level_label,
};
use crate::engine::{
    AuditTier, CommentMatch, PinKind, ReferenceKind, kind_label, spec_audit_tier,
};
use crate::github::{Release, ResolvedRef};
use crate::render::{debug_quoted, quote_debug};
use crate::text::{chars_of, push_str};

use super::pin::{
    BaselineView, SemVer, SemVerView, ShapeView, TagShape, VersionBaseline, age_in_range,
    classify_tag, config_age_ok, format_version_tag, latest_on_major, min_age_in_nanos,
    min_age_nanos, parse_semver_tag, release_version, select_release, spec_classify_tag,
    spec_latest_on_major, spec_select_release, spec_semver_tag, spec_version_baseline, sv_order,
    version_baseline, version_tag_text,
};
use super::types::{AuditIssue, CommentTagResolution, ResolvedReference};

verus! {

/// An [`AuditIssue`] as values.
pub ghost enum IssueView {
    MutableBranch,
    ShortSha,
    NotShaPinned,
    CommentMismatch { comment: Seq<char>, expected: Seq<char> },
    ShaProvenanceUnverifiable { sha: Seq<char> },
    ShaCommentMismatch { comment: Seq<char>, expected_sha: Seq<char> },
    ReleaseTooYoung { min_age: Seq<char>, published_at: Seq<char> },
    SkippedBranch,
    SecondaryReference { reference_kind: Seq<char> },
    ResolutionFailed { message: Seq<char> },
    FloatingMajorPin { pin: Seq<char> },
    UnreleasedCommit { sha: Seq<char> },
    UpdateBlockedByConfig {
        current_version: Seq<char>,
        available_version: Seq<char>,
        update_level: Seq<char>,
    },
    CommentMajorLineMismatch { comment: Seq<char>, resolved_version: Seq<char> },
}

impl View for AuditIssue {
    type V = IssueView;

    open spec fn view(&self) -> IssueView {
        match self {
            AuditIssue::MutableBranch => IssueView::MutableBranch,
            AuditIssue::ShortSha => IssueView::ShortSha,
            AuditIssue::NotShaPinned => IssueView::NotShaPinned,
            AuditIssue::CommentMismatch { comment, expected } => IssueView::CommentMismatch {
                comment: comment@,
                expected: expected@,
            },
            AuditIssue::ShaProvenanceUnverifiable { sha } => IssueView::ShaProvenanceUnverifiable {
                sha: sha@,
            },
            AuditIssue::ShaCommentMismatch { comment, expected_sha } => IssueView::ShaCommentMismatch {
                comment: comment@,
                expected_sha: expected_sha@,
            },
            AuditIssue::ReleaseTooYoung { min_age, published_at } => IssueView::ReleaseTooYoung {
                min_age: min_age@,
                published_at: published_at@,
            },
            AuditIssue::SkippedBranch => IssueView::SkippedBranch,
            AuditIssue::SecondaryReference { reference_kind } => IssueView::SecondaryReference {
                reference_kind: reference_kind@,
            },
            AuditIssue::ResolutionFailed { message } => IssueView::ResolutionFailed {
                message: message@,
            },
            AuditIssue::FloatingMajorPin { pin } => IssueView::FloatingMajorPin { pin: pin@ },
            AuditIssue::UnreleasedCommit { sha } => IssueView::UnreleasedCommit { sha: sha@ },
            AuditIssue::UpdateBlockedByConfig {
                current_version,
                available_version,
                update_level,
            } => IssueView::UpdateBlockedByConfig {
                current_version: current_version@,
                available_version: available_version@,
                update_level: update_level@,
            },
            AuditIssue::CommentMajorLineMismatch { comment, resolved_version } =>
                IssueView::CommentMajorLineMismatch {
                comment: comment@,
                resolved_version: resolved_version@,
            },
        }
    }
}

pub open spec fn views(v: Seq<AuditIssue>) -> Seq<IssueView> {
    v.map_values(|i: AuditIssue| i@)
}

pub open spec fn is_sha_pin(k: PinKind) -> bool {
    k == PinKind::FullSha || k == PinKind::ShortSha
}

/// Branch rules: a skipped branch when branches are skipped, a mutable one otherwise.
pub open spec fn branch_issues(pin: PinKind, c: ActioneerConfig) -> Seq<IssueView> {
    if pin == PinKind::Branch {
        if c.skip_branches {
            seq![IssueView::SkippedBranch]
        } else {
            seq![IssueView::MutableBranch]
        }
    } else {
        Seq::empty()
    }
}

/// Pin rules: a short SHA; a non-SHA pin of an action or reusable workflow in
/// SHA mode; a tag that floats on a major line.
pub open spec fn pin_issues(r: ResolvedReference, c: ActioneerConfig) -> Seq<IssueView> {
    let reference = r.located.reference;
    let short = if reference.pin_kind == PinKind::ShortSha {
        seq![IssueView::ShortSha]
    } else {
        Seq::empty()
    };
    let not_sha = if c.pin == PinMode::Sha && reference.pin_kind != PinKind::FullSha && (
    reference.kind == ReferenceKind::Action || reference.kind == ReferenceKind::ReusableWorkflow) {
        seq![IssueView::NotShaPinned]
    } else {
        Seq::empty()
    };
    let floating = match reference.git_ref {
        Some(g) if reference.pin_kind == PinKind::Tag && spec_classify_tag(g@) is MajorOnly => seq![
            IssueView::FloatingMajorPin { pin: g@ },
        ],
        _ => Seq::empty(),
    };
    short + not_sha + floating
}

/// SHA provenance: for a SHA pin, a failed comment-tag resolution; else, when
/// the current SHA is known, a comment tag that resolves elsewhere, or no
/// comment tag at all.
pub open spec fn provenance_issues(r: ResolvedReference, ctr: CommentTagResolution) -> Seq<IssueView> {
    if !is_sha_pin(r.located.reference.pin_kind) {
        Seq::empty()
    } else {
        match ctr {
            CommentTagResolution::Failed { tag, reason } => seq![
                IssueView::ResolutionFailed {
                    message: "failed to resolve SHA provenance comment tag "@ + debug_quoted(tag@)
                        + ": "@ + reason@,
                },
            ],
            CommentTagResolution::Resolved { tag, sha } => if r.current.sha@.len() == 0
                || sha@ == r.current.sha@ {
                Seq::empty()
            } else {
                seq![IssueView::ShaCommentMismatch { comment: tag@, expected_sha: sha@ }]
            },
            CommentTagResolution::NotApplicable => if r.current.sha@.len() == 0 {
                Seq::empty()
            } else {
                seq![IssueView::ShaProvenanceUnverifiable { sha: r.current.sha@ }]
            },
        }
    }
}

/// Comment semantics: a comment that does not describe a non-SHA pin.
pub open spec fn comment_issues(r: ResolvedReference) -> Seq<IssueView> {
    match r.comment_match {
        CommentMatch::Mismatch { comment, expected } if !is_sha_pin(r.located.reference.pin_kind) =>
            seq![IssueView::CommentMismatch { comment: comment@, expected: expected@ }],
        _ => Seq::empty(),
    }
}

/// Release age: a published date that has not reached the minimum age at `now`.
pub open spec fn age_issues(current: ResolvedRef, min_age: Option<RelativeDuration>, now: int) -> Seq<
    IssueView,
> {
    match (min_age, current.published_at) {
        (Some(d), Some(p)) => match rfc3339_nanos(p@) {
            Some(t) => if now - t < min_age_nanos(d) {
                seq![IssueView::ReleaseTooYoung { min_age: duration_label(d), published_at: p@ }]
            } else {
                Seq::empty()
            },
            None => Seq::empty(),
        },
        _ => Seq::empty(),
    }
}

/// Update level: for an exact written version, a newer release on its major
/// line exists but none is within the configured level.
pub open spec fn blocked_issues(r: ResolvedReference, releases: Seq<Release>, c: ActioneerConfig) -> Seq<
    IssueView,
> {
    let reference = r.located.reference;
    if reference.pin_kind == PinKind::Branch && c.skip_branches {
        Seq::empty()
    } else {
        match spec_version_baseline(reference) {
            BaselineView::Exact(cur) => match spec_latest_on_major(releases, cur.major) {
                Some(i) => {
                    let latest = releases[i];
                    if sv_order(release_version(latest), cur) <= 0 {
                        Seq::empty()
                    } else {
                        match spec_select_release(releases, cur, c.update, None, 0) {
                            Some(_) => Seq::empty(),
                            None => seq![
                                IssueView::UpdateBlockedByConfig {
                                    current_version: version_tag_text(cur),
                                    available_version: latest.tag_name@,
                                    update_level: update_level_label(c.update),
                                },
                            ],
                        }
                    }
                },
                None => Seq::empty(),
            },
            _ => Seq::empty(),
        }
    }
}

/// All audit findings for one reference, in evaluation order, at time `now`.
pub open spec fn spec_evaluate(
    r: ResolvedReference,
    releases: Seq<Release>,
    c: ActioneerConfig,
    ctr: CommentTagResolution,
    now: int,
) -> Seq<IssueView> {
    let reference = r.located.reference;
    if reference.spec_is_local_reusable_workflow() {
        Seq::empty()
    } else if spec_audit_tier(reference.kind) == AuditTier::Secondary {
        seq![IssueView::SecondaryReference { reference_kind: kind_label(reference.kind) }]
    } else {
        branch_issues(reference.pin_kind, c) + pin_issues(r, c) + provenance_issues(r, ctr)
            + comment_issues(r) + age_issues(r.current, c.min_release_age, now) + if reference.kind
            == ReferenceKind::Action {
            blocked_issues(r, releases, c)
        } else {
            Seq::empty()
        }
    }
}

fn push_issue(issues: &mut Vec<AuditIssue>, issue: AuditIssue)
    ensures
        views(final(issues)@) == views(old(issues)@).push(issue@),
{
    issues.push(issue);
    proof {
        assert(views(issues@) =~= views(old(issues)@).push(issue@));
    }
}

fn check_pin(resolved: &ResolvedReference, config: &ActioneerConfig, issues: &mut Vec<AuditIssue>)
    ensures
        views(final(issues)@) == views(old(issues)@) + branch_issues(
            resolved.located.reference.pin_kind,
            *config,
        ) + pin_issues(*resolved, *config),
{
    let reference = &resolved.located.reference;
    if reference.pin_kind == PinKind::Branch {
        if config.skip_branches {
            push_issue(issues, AuditIssue::SkippedBranch);
        } else {
            push_issue(issues, AuditIssue::MutableBranch);
        }
    }
    if reference.pin_kind == PinKind::ShortSha {
        push_issue(issues, AuditIssue::ShortSha);
    }
    if config.pin == PinMode::Sha && reference.pin_kind != PinKind::FullSha && (reference.kind
        == ReferenceKind::Action || reference.kind == ReferenceKind::ReusableWorkflow) {
        push_issue(issues, AuditIssue::NotShaPinned);
    }
    if reference.pin_kind == PinKind::Tag {
        if let Some(g) = &reference.git_ref {
            if let TagShape::MajorOnly(_) = classify_tag(g.as_str()) {
                push_issue(issues, AuditIssue::FloatingMajorPin { pin: g.clone() });
            }
        }
    }
    proof {
        assert(views(issues@) =~= views(old(issues)@) + branch_issues(
            resolved.located.reference.pin_kind,
            *config,
        ) + pin_issues(*resolved, *config));
    }
}

fn check_sha_provenance(
    resolved: &ResolvedReference,
    comment_tag_resolution: &CommentTagResolution,
    issues: &mut Vec<AuditIssue>,
)
    ensures
        views(final(issues)@) == views(old(issues)@) + provenance_issues(
            *resolved,
            *comment_tag_resolution,
        ),
{
    let pin = resolved.located.reference.pin_kind;
    if !(pin == PinKind::FullSha || pin == PinKind::ShortSha) {
        assert(views(issues@) =~= views(old(issues)@) + Seq::empty());
        return ;
    }
    let sha_known = chars_of(resolved.current.sha.as_str()).len() > 0;
    match comment_tag_resolution {
        CommentTagResolution::Failed { tag, reason } => {
            let mut message = String::new();
            push_str(&mut message, "failed to resolve SHA provenance comment tag ");
            let q = quote_debug(tag.as_str());
            push_str(&mut message, q.as_str());
            push_str(&mut message, ": ");
            push_str(&mut message, reason.as_str());
            proof {
                reveal_strlit("failed to resolve SHA provenance comment tag ");
                reveal_strlit(": ");
            }
            push_issue(issues, AuditIssue::ResolutionFailed { message });
        },
        CommentTagResolution::Resolved { tag, sha } => {
            if sha_known && !crate::text::str_eq(sha.as_str(), resolved.current.sha.as_str()) {
                push_issue(
                    issues,
                    AuditIssue::ShaCommentMismatch { comment: tag.clone(), expected_sha: sha.clone() },
                );
            } else {
                assert(views(issues@) =~= views(old(issues)@) + Seq::empty());
            }
        },
        CommentTagResolution::NotApplicable => {
            if sha_known {
                push_issue(
                    issues,
                    AuditIssue::ShaProvenanceUnverifiable { sha: resolved.current.sha.clone() },
                );
            } else {
                assert(views(issues@) =~= views(old(issues)@) + Seq::empty());
            }
        },
    }
}

fn check_comment_semantics(resolved: &ResolvedReference, issues: &mut Vec<AuditIssue>)
    ensures
        views(final(issues)@) == views(old(issues)@) + comment_issues(*resolved),
{
    let pin = resolved.located.reference.pin_kind;
    match &resolved.comment_match {
        CommentMatch::Mismatch { comment, expected } => {
            if !(pin == PinKind::FullSha || pin == PinKind::ShortSha) {
                push_issue(
                    issues,
                    AuditIssue::CommentMismatch { comment: comment.clone(), expected: expected.clone() },
                );
                return ;
            }
        },
        _ => {},
    }
    assert(views(issues@) =~= views(old(issues)@) + Seq::empty());
}

/// The release-age finding for the current resolution at time `now`, if any.
pub fn check_release_age(current: &ResolvedRef, min_age: RelativeDuration, now: i128) -> (r: Option<
    AuditIssue,
>)
    requires
        age_in_range(min_age),
        -INSTANT_BOUND <= now <= INSTANT_BOUND,
    ensures
        match r {
            Some(i) => age_issues(*current, Some(min_age), now as int) == seq![i@],
            None => age_issues(*current, Some(min_age), now as int) == Seq::<IssueView>::empty(),
        },
        r is Some <==> (current.published_at is Some && rfc3339_nanos(current.published_at->0@) is Some
            && now - rfc3339_nanos(current.published_at->0@)->0 < min_age_nanos(min_age)),
{
    let published_at = match &current.published_at {
        Some(p) => p,
        None => return None,
    };
    let published = match parse_rfc3339(published_at.as_str()) {
        Some(t) => t,
        None => return None,
    };
    let min = min_age_in_nanos(min_age);
    if now - published < min {
        Some(
            AuditIssue::ReleaseTooYoung {
                min_age: min_age.to_label(),
                published_at: published_at.clone(),
            },
        )
    } else {
        None
    }
}

fn check_update_blocked_by_config(
    resolved: &ResolvedReference,
    releases: &[Release],
    config: &ActioneerConfig,
    issues: &mut Vec<AuditIssue>,
)
    ensures
        views(final(issues)@) == views(old(issues)@) + blocked_issues(*resolved, releases@, *config),
{
    let reference = &resolved.located.reference;
    if reference.pin_kind == PinKind::Branch && config.skip_branches {
        assert(views(issues@) =~= views(old(issues)@) + Seq::empty());
        return ;
    }
    let current = match version_baseline(reference) {
        VersionBaseline::Exact(v) => v,
        _ => {
            assert(views(issues@) =~= views(old(issues)@) + Seq::empty());
            return ;
        },
    };
    let latest = match latest_on_major(releases, current.major) {
        Some(l) => l,
        None => {
            assert(views(issues@) =~= views(old(issues)@) + Seq::empty());
            return ;
        },
    };
    let latest_v = match parse_semver_tag(latest.tag_name.as_str()) {
        Some(v) => v,
        None => {
            assert(false);
            return ;
        },
    };
    if super::pin::compare_semver(&latest_v, &current) <= 0 {
        assert(views(issues@) =~= views(old(issues)@) + Seq::empty());
        return ;
    }
    let allowed = select_release(releases, &current, config.update, None, 0);
    match allowed {
        Some(_) => {
            assert(views(issues@) =~= views(old(issues)@) + Seq::empty());
        },
        None => {
            let current_version = format_version_tag(&current);
            let level = config.update.as_str().to_string();
            push_issue(
                issues,
                AuditIssue::UpdateBlockedByConfig {
                    current_version,
                    available_version: latest.tag_name.clone(),
                    update_level: level,
                },
            );
        },
    }
}

/// Evaluate the audit rules for one reference at time `now`, in order:
/// branch and pin rules, SHA provenance, comment semantics, release age, and
/// for updatable actions a newer release outside the configured level.
pub fn evaluate(
    resolved: &ResolvedReference,
    releases: &[Release],
    config: &ActioneerConfig,
    comment_tag_resolution: &CommentTagResolution,
    now: i128,
) -> (r: Vec<AuditIssue>)
    requires
        config_age_ok(*config),
        -INSTANT_BOUND <= now <= INSTANT_BOUND,
    ensures
        views(r@) == spec_evaluate(*resolved, releases@, *config, *comment_tag_resolution, now as int),
{
    let reference = &resolved.located.reference;
    let mut issues: Vec<AuditIssue> = Vec::new();
    if reference.is_local_reusable_workflow() {
        assert(views(issues@) =~= Seq::empty());
        return issues;
    }
    if reference.kind.audit_tier() == AuditTier::Secondary {
        push_issue(
            &mut issues,
            AuditIssue::SecondaryReference { reference_kind: reference.kind.label().to_string() },
        );
        assert(views(issues@) =~= seq![
            IssueView::SecondaryReference { reference_kind: kind_label(reference.kind) },
        ]);
        return issues;
    }
    assert(views(issues@) =~= Seq::empty());
    check_pin(resolved, config, &mut issues);
    check_sha_provenance(resolved, comment_tag_resolution, &mut issues);
    check_comment_semantics(resolved, &mut issues);
    let ghost before_age = views(issues@);
    match config.min_release_age {
        Some(min_age) => {
            match check_release_age(&resolved.current, min_age, now) {
                Some(issue) => push_issue(&mut issues, issue),
                None => {},
            }
        },
        None => {},
    }
    assert(views(issues@) =~= before_age + age_issues(
        resolved.current,
        config.min_release_age,
        now as int,
    ));
    if reference.kind.is_updatable() {
        check_update_blocked_by_config(resolved, releases, config, &mut issues);
    } else {
        assert(views(issues@) =~= views(issues@) + Seq::empty());
    }
    proof {
        let b = branch_issues(reference.pin_kind, *config);
        let p = pin_issues(*resolved, *config);
        let v = provenance_issues(*resolved, *comment_tag_resolution);
        let m = comment_issues(*resolved);
        let a = age_issues(resolved.current, config.min_release_age, now as int);
        assert(b + p + v + m + a == Seq::<IssueView>::empty() + (b + p) + v + m + a);
    }
    issues
}

/// Evaluate the audit rules for one reference at the current time. The
/// findings are those of [`evaluate`] at some instant that the clock gave.
pub fn evaluate_now(
    resolved: &ResolvedReference,
    releases: &[Release],
    config: &ActioneerConfig,
    comment_tag_resolution: &CommentTagResolution,
) -> (r: Vec<AuditIssue>)
    requires
        config_age_ok(*config),
    ensures
        exists|now: int|
            -INSTANT_BOUND <= now <= INSTANT_BOUND && views(r@) == spec_evaluate(
                *resolved,
                releases@,
                *config,
                *comment_tag_resolution,
                now,
            ),
{
    let now = now_nanos();
    evaluate(resolved, releases, config, comment_tag_resolution, now)
}

/// The findings that keep a reference from being updated: a release too
/// young, a skipped branch, or a failed resolution.
pub open spec fn spec_blocks(i: IssueView) -> bool {
    i is ReleaseTooYoung || i is SkippedBranch || i is ResolutionFailed
}

/// Whether any finding keeps the reference from being updated.
pub fn blocks_update(issues: &[AuditIssue]) -> (r: bool)
    ensures
        r == exists|k: int| 0 <= k < issues@.len() && spec_blocks(#[trigger] issues@[k]@),
{
    let mut k: usize = 0;
    while k < issues.len()
        invariant
            0 <= k <= issues.len(),
            forall|j: int| 0 <= j < k ==> !spec_blocks(#[trigger] issues@[j]@),
        decreases issues.len() - k,
    {
        match &issues[k] {
            AuditIssue::ReleaseTooYoung { .. } | AuditIssue::SkippedBranch
            | AuditIssue::ResolutionFailed { .. } => {
                assert(spec_blocks(issues@[k as int]@));
                return true;
            },
            _ => {},
        }
        k += 1;
    }
    false
}

} // verus!
