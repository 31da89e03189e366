//! The decisions of the workspace scan, reference by reference: what to ask
//! GitHub, how a failed answer is recorded, and how the report is counted.
//! Reading files and calling GitHub are left to the caller.
use vstd::prelude::*;

use crate::config::ActioneerConfig;
use crate::engine::{ActionReference, AuditTier, PinKind, ReferenceKind, opt_view, spec_audit_tier};
use crate::github::{RefKind, Release, ResolvedRef};
use crate::text::{find_first, push_str, str_eq};

use super::audit::{IssueView, blocks_update, evaluate, spec_blocks, spec_evaluate, views};
use super::pin::{ShapeView, TagShape, classify_tag, config_age_ok, spec_classify_tag};
use super::types::{AuditIssue, CommentTagResolution, ResolvedReference, ScanStats};

verus! {

/// A reference that gets the full primary rules: a primary kind that is not a
/// local reusable workflow.
pub open spec fn spec_is_primary(r: ActionReference) -> bool {
    spec_audit_tier(r.kind) == AuditTier::Primary && !r.spec_is_local_reusable_workflow()
}

/// Whether the reference gets the full primary audit rules.
pub fn is_primary(reference: &ActionReference) -> (r: bool)
    ensures
        r == spec_is_primary(*reference),
{
    reference.kind.audit_tier() == AuditTier::Primary && !reference.is_local_reusable_workflow()
}

/// Whether the releases of the reference's repository are listed: for a
/// primary reference with an owner and a repository.
pub fn needs_releases(reference: &ActionReference) -> (r: bool)
    ensures
        r == (spec_is_primary(*reference) && reference.owner is Some && reference.repo is Some),
{
    is_primary(reference) && reference.owner.is_some() && reference.repo.is_some()
}

/// How the written ref of a reference is resolved.
#[derive(Debug, Clone, PartialEq, Eq)]
pub enum ResolvePlan {
    /// Not at all: a placeholder stands for it, and `failed` says whether
    /// that counts as a failed resolution.
    Placeholder { failed: bool },
    /// Through GitHub, as `owner/repo@git_ref`.
    Lookup { owner: String, repo: String, git_ref: String },
}

/// Local reusable workflows and secondary references are not resolved;
/// a reference without owner, repository or ref cannot be.
pub fn resolve_plan(reference: &ActionReference) -> (r: ResolvePlan)
    ensures
        reference.spec_is_local_reusable_workflow() || spec_audit_tier(reference.kind)
            == AuditTier::Secondary ==> r == (ResolvePlan::Placeholder { failed: false }),
        !(reference.spec_is_local_reusable_workflow() || spec_audit_tier(reference.kind)
            == AuditTier::Secondary) ==> match (reference.owner, reference.repo, reference.git_ref) {
            (Some(o), Some(p), Some(g)) => r matches ResolvePlan::Lookup { owner, repo, git_ref }
                && owner@ == o@ && repo@ == p@ && git_ref@ == g@,
            _ => r == (ResolvePlan::Placeholder { failed: true }),
        },
{
    if reference.is_local_reusable_workflow() || reference.kind.audit_tier() == AuditTier::Secondary {
        return ResolvePlan::Placeholder { failed: false };
    }
    match (&reference.owner, &reference.repo, &reference.git_ref) {
        (Some(o), Some(p), Some(g)) => ResolvePlan::Lookup {
            owner: o.clone(),
            repo: p.clone(),
            git_ref: g.clone(),
        },
        _ => ResolvePlan::Placeholder { failed: true },
    }
}

/// The resolution that stands for a ref that was not, or could not be, resolved.
pub fn placeholder_ref() -> (r: ResolvedRef)
    ensures
        r.sha@.len() == 0,
        r.ref_kind == RefKind::Sha,
        r.published_at is None,
{
    ResolvedRef { sha: String::new(), ref_kind: RefKind::Sha, published_at: None }
}

pub open spec fn tag_is(g: Seq<char>) -> spec_fn(Release) -> bool {
    |r: Release| r.tag_name@ == g
}

/// The publication date of a resolution: its own when it has one, else that
/// of the first release whose tag is the written ref.
pub open spec fn enriched_date(
    current: Option<Seq<char>>,
    git_ref: Option<Seq<char>>,
    releases: Seq<Release>,
) -> Option<Seq<char>> {
    match current {
        Some(p) => Some(p),
        None => match git_ref {
            None => None,
            Some(g) => match find_first(releases, tag_is(g)) {
                Some(i) => Some(releases[i].published_at@),
                None => None,
            },
        },
    }
}

/// Fill in a missing publication date from the release list.
pub fn enrich_published_at(resolved: &mut ResolvedReference, releases: &[Release])
    ensures
        final(resolved).located == old(resolved).located,
        final(resolved).comment_match == old(resolved).comment_match,
        final(resolved).current.sha == old(resolved).current.sha,
        final(resolved).current.ref_kind == old(resolved).current.ref_kind,
        opt_view(final(resolved).current.published_at) == enriched_date(
            opt_view(old(resolved).current.published_at),
            opt_view(old(resolved).located.reference.git_ref),
            releases@,
        ),
{
    if resolved.current.published_at.is_some() {
        return ;
    }
    let git_ref = match &resolved.located.reference.git_ref {
        Some(g) => g.clone(),
        None => return ,
    };
    let mut k: usize = 0;
    while k < releases.len()
        invariant
            0 <= k <= releases.len(),
            *resolved == *old(resolved),
            old(resolved).current.published_at is None,
            old(resolved).located.reference.git_ref == Some(git_ref),
            find_first(releases@, tag_is(git_ref@)) == crate::text::find_from(
                releases@,
                tag_is(git_ref@),
                k as int,
            ),
        decreases releases.len() - k,
    {
        if str_eq(releases[k].tag_name.as_str(), git_ref.as_str()) {
            resolved.current.published_at = Some(releases[k].published_at.clone());
            return ;
        }
        k += 1;
    }
}

/// The tag whose commit vouches for a SHA pin: its comment, when that names
/// a full semantic version.
pub open spec fn spec_comment_tag(r: ActionReference) -> Option<Seq<char>> {
    if !(r.pin_kind == PinKind::FullSha || r.pin_kind == PinKind::ShortSha) {
        None
    } else {
        match r.line_comment {
            Some(c) => if spec_classify_tag(c@) is FullSemver || spec_classify_tag(c@) is MajorOnly {
                Some(c@)
            } else {
                None
            },
            None => None,
        }
    }
}

/// The comment tag to resolve for a SHA pin, if any.
pub fn comment_tag_to_resolve(reference: &ActionReference) -> (r: Option<String>)
    ensures
        opt_view(r) == spec_comment_tag(*reference),
{
    if !(reference.pin_kind == PinKind::FullSha || reference.pin_kind == PinKind::ShortSha) {
        return None;
    }
    match &reference.line_comment {
        Some(c) => match classify_tag(c.as_str()) {
            TagShape::FullSemver(_) | TagShape::MajorOnly(_) => Some(c.clone()),
            _ => None,
        },
        None => None,
    }
}

pub open spec fn failed_issue() -> IssueView {
    IssueView::ResolutionFailed { message: "failed to resolve reference on GitHub"@ }
}

/// The findings of one reference at time `now`: the audit rules, then a
/// failed resolution when the written ref could not be resolved.
pub fn audit_reference(
    resolved: &ResolvedReference,
    releases: &[Release],
    config: &ActioneerConfig,
    comment_tag_resolution: &CommentTagResolution,
    resolution_failed: bool,
    now: i128,
) -> (r: Vec<AuditIssue>)
    requires
        config_age_ok(*config),
        -crate::clock::INSTANT_BOUND <= now <= crate::clock::INSTANT_BOUND,
    ensures
        views(r@) == spec_evaluate(*resolved, releases@, *config, *comment_tag_resolution, now as int)
            + if resolution_failed {
            seq![failed_issue()]
        } else {
            Seq::empty()
        },
{
    let mut issues = evaluate(resolved, releases, config, comment_tag_resolution, now);
    let ghost before = views(issues@);
    if resolution_failed {
        proof {
            reveal_strlit("failed to resolve reference on GitHub");
        }
        issues.push(
            AuditIssue::ResolutionFailed {
                message: "failed to resolve reference on GitHub".to_string(),
            },
        );
        assert(views(issues@) =~= before + seq![failed_issue()]);
    } else {
        assert(views(issues@) =~= before + Seq::empty());
    }
    issues
}

/// Whether a reference may get a plan: it is not a local reusable workflow
/// and names its owner and repository.
pub fn may_plan(reference: &ActionReference) -> (r: bool)
    ensures
        r == (!reference.spec_is_local_reusable_workflow() && reference.owner is Some
            && reference.repo is Some),
{
    !reference.is_local_reusable_workflow() && reference.owner.is_some() && reference.repo.is_some()
}

/// Number of findings that are updates blocked by the configured level.
pub open spec fn config_blocked_count(issues: Seq<IssueView>) -> nat
    decreases issues.len(),
{
    if issues.len() == 0 {
        0
    } else {
        config_blocked_count(issues.drop_last()) + if issues.last() is UpdateBlockedByConfig {
            1nat
        } else {
            0nat
        }
    }
}

proof fn lemma_config_blocked_bound(issues: Seq<IssueView>)
    ensures
        config_blocked_count(issues) <= issues.len(),
    decreases issues.len(),
{
    if issues.len() > 0 {
        lemma_config_blocked_bound(issues.drop_last());
    }
}

/// The counters cannot overflow while one more reference is counted.
pub open spec fn room_for(s: ScanStats, issues: nat) -> bool {
    &&& s.references < usize::MAX
    &&& s.primary < usize::MAX
    &&& s.secondary < usize::MAX
    &&& s.issues + issues <= usize::MAX
    &&& s.config_blocked + issues <= usize::MAX
    &&& s.planned < usize::MAX
    &&& s.blocked < usize::MAX
}

/// Whether the counters can take one more reference with `issues` findings.
pub fn has_room(stats: &ScanStats, issues: usize) -> (r: bool)
    ensures
        r == room_for(*stats, issues as nat),
{
    stats.references < usize::MAX && stats.primary < usize::MAX && stats.secondary < usize::MAX
        && stats.issues <= usize::MAX - issues && stats.config_blocked <= usize::MAX - issues
        && stats.planned < usize::MAX && stats.blocked < usize::MAX
}

/// Count one reference: its tier, its findings, the findings blocked by the
/// update level, and whether it got a plan or was blocked from one.
pub fn count_reference(
    stats: &mut ScanStats,
    reference: &ActionReference,
    issues: &[AuditIssue],
    planned: bool,
)
    requires
        room_for(*old(stats), issues@.len()),
    ensures
        final(stats).workflows == old(stats).workflows,
        final(stats).references == old(stats).references + 1,
        final(stats).primary == old(stats).primary + if spec_is_primary(*reference) {
            1int
        } else {
            0int
        },
        final(stats).secondary == old(stats).secondary + if spec_is_primary(*reference) {
            0int
        } else {
            1int
        },
        final(stats).issues == old(stats).issues + issues@.len(),
        final(stats).config_blocked == old(stats).config_blocked + config_blocked_count(
            views(issues@),
        ),
        final(stats).planned == old(stats).planned + if planned {
            1int
        } else {
            0int
        },
        final(stats).blocked == old(stats).blocked + if !planned && reference.kind
            == ReferenceKind::Action && issues@.len() > 0 && (exists|k: int|
            0 <= k < issues@.len() && spec_blocks(#[trigger] issues@[k]@)) {
            1int
        } else {
            0int
        },
{
    stats.references = stats.references + 1;
    if is_primary(reference) {
        stats.primary = stats.primary + 1;
    } else {
        stats.secondary = stats.secondary + 1;
    }
    stats.issues = stats.issues + issues.len();
    let mut blocked_by_level: usize = 0;
    let mut k: usize = 0;
    while k < issues.len()
        invariant
            0 <= k <= issues.len(),
            blocked_by_level == config_blocked_count(views(issues@.take(k as int))),
            blocked_by_level <= k,
        decreases issues.len() - k,
    {
        proof {
            assert(views(issues@.take(k as int + 1)).drop_last() =~= views(issues@.take(k as int)));
            assert(views(issues@.take(k as int + 1)).last() == issues@[k as int]@);
        }
        match &issues[k] {
            AuditIssue::UpdateBlockedByConfig { .. } => {
                blocked_by_level = blocked_by_level + 1;
            },
            _ => {},
        }
        k += 1;
    }
    proof {
        assert(issues@.take(issues@.len() as int) == issues@);
    }
    stats.config_blocked = stats.config_blocked + blocked_by_level;
    if planned {
        stats.planned = stats.planned + 1;
    } else if reference.kind.is_updatable() && issues.len() > 0 && blocks_update(issues) {
        stats.blocked = stats.blocked + 1;
    }
}

} // verus!
