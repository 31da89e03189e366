//! Properties of the library as a whole, proved over the models its
//! functions' contracts are stated in.
use vstd::prelude::*;

use crate::cli::ConfigArgs;
use crate::clock::rfc3339_nanos;
use crate::config::{ActioneerConfig, default_config, overridden};
use crate::discovery::{
    Target, in_order, lemma_default_in_order, lemma_targets_strict, spec_default_workflows, strictly_in_order,
    targets_from,
};
use crate::engine::{AuditTier, ReferenceKind, spec_audit_tier};
use crate::engine::parse::{RefView, cursor_at, line_has_raw, locate, located};
use crate::github::cache::spec_encode_ref;
use crate::github::Release;
use crate::config::PinMode;
use crate::engine::opt_view;
use crate::engine::uses_line::{QuoteStyle, spec_format_uses_value, spec_split};
use crate::scan::apply::{line_views, spec_apply_error, spec_find_reference, spec_step_lines};
use crate::scan::audit::{IssueView, spec_blocks, spec_evaluate};
use crate::scan::pin::{
    BaselineView, SemVerView, eligible_release, release_version, select_fold, spec_select_release,
    spec_semver_tag, spec_version_baseline, sv_order,
};
use crate::scan::plan::{
    StepView, TagLookup, first_mismatch, lookup, major_only_step, plan_for, plan_pin, spec_propose,
};
use crate::scan::types::{CommentTagResolution, ResolvedReference, WorkflowReport};
use crate::scan::pin::{before_last_at, spec_target_value, target_text};
use crate::terminal::{sgr, spec_strip_csi, letter_run};
use crate::tui::app::{
    clamped_focus, selected_in, selected_targets, selected_total, spec_scroll, targets_in, toggle_group,
    toggle_item, total_items, with_selection,
};
use crate::tui::selection::{GroupView, ItemView};
use crate::tui::view::clamp;

verus! {

// ---------------------------------------------------------------------------
// Configuration
// ---------------------------------------------------------------------------
/// Command-line options override the configuration file: each option given
/// replaces the file's value, and an option left out keeps it.
pub proof fn law_options_override_file(c: ActioneerConfig, args: ConfigArgs)
    ensures
        args.pin matches Some(p) ==> overridden(c, args).pin == p,
        args.pin is None ==> overridden(c, args).pin == c.pin,
        args.update matches Some(u) ==> overridden(c, args).update == u,
        args.update is None ==> overridden(c, args).update == c.update,
        args.min_release_age is Some ==> overridden(c, args).min_release_age == args.min_release_age,
        args.min_release_age is None ==> overridden(c, args).min_release_age == c.min_release_age,
        args.mode is Some ==> overridden(c, args).mode == args.mode,
        args.mode is None ==> overridden(c, args).mode == c.mode,
        args.offline matches Some(o) ==> overridden(c, args).offline == o,
        args.no_cache matches Some(n) ==> overridden(c, args).no_cache == n,
{
}

/// Applying the same options twice is applying them once.
pub proof fn law_overrides_idempotent(c: ActioneerConfig, args: ConfigArgs)
    ensures
        overridden(overridden(c, args), args) == overridden(c, args),
{
}

/// With no options given the configuration is unchanged.
pub proof fn law_no_options_keep_config(c: ActioneerConfig, args: ConfigArgs)
    requires
        args.pin is None && args.update is None && args.skip_branches is None
            && args.min_release_age is None && args.offline is None && args.no_cache is None
            && args.mode is None && args.apply is None && args.dry_run is None,
    ensures
        overridden(c, args) == c,
{
}

/// The default configuration passes validation: it is not both offline and uncached.
pub proof fn law_defaults_are_valid()
    ensures
        !(default_config().offline && default_config().no_cache),
{
}

// ---------------------------------------------------------------------------
// Audit
// ---------------------------------------------------------------------------
/// Local reusable workflows get no findings; other secondary references get
/// exactly the one finding that says they are secondary.
pub proof fn law_secondary_references(
    r: ResolvedReference,
    releases: Seq<Release>,
    c: ActioneerConfig,
    ctr: CommentTagResolution,
    now: int,
)
    ensures
        r.located.reference.spec_is_local_reusable_workflow() ==> spec_evaluate(
            r,
            releases,
            c,
            ctr,
            now,
        ).len() == 0,
        !r.located.reference.spec_is_local_reusable_workflow() && spec_audit_tier(
            r.located.reference.kind,
        ) == AuditTier::Secondary ==> spec_evaluate(r, releases, c, ctr, now).len() == 1
            && spec_evaluate(r, releases, c, ctr, now)[0] is SecondaryReference,
{
}

/// `s` holds a finding that the release is too young.
pub open spec fn has_too_young(s: Seq<IssueView>) -> bool {
    exists|k: int| 0 <= k < s.len() && #[trigger] s[k] is ReleaseTooYoung
}

proof fn lemma_too_young_concat(a: Seq<IssueView>, b: Seq<IssueView>)
    ensures
        has_too_young(a + b) == (has_too_young(a) || has_too_young(b)),
{
    if has_too_young(a + b) {
        let k = choose|k: int| 0 <= k < (a + b).len() && #[trigger] (a + b)[k] is ReleaseTooYoung;
        if k < a.len() {
            assert(a[k] == (a + b)[k]);
        } else {
            assert(b[k - a.len()] == (a + b)[k]);
        }
    }
    if has_too_young(a) {
        let k = choose|k: int| 0 <= k < a.len() && #[trigger] a[k] is ReleaseTooYoung;
        assert((a + b)[k] == a[k]);
    }
    if has_too_young(b) {
        let k = choose|k: int| 0 <= k < b.len() && #[trigger] b[k] is ReleaseTooYoung;
        assert((a + b)[k + a.len()] == b[k]);
    }
}

proof fn lemma_one_finding(i: IssueView)
    ensures
        has_too_young(seq![i]) == (i is ReleaseTooYoung),
        !has_too_young(Seq::<IssueView>::empty()),
{
    if i is ReleaseTooYoung {
        assert(seq![i][0] == i);
    }
}

/// A primary reference gets a finding that its release is too young exactly
/// when a minimum age is configured, the date its current release was
/// published parses to an instant `t`, and less than the minimum age (in
/// nanoseconds) has passed since `t` at `now`; the finding names the
/// minimum age and the date. That is exactly when the current release has
/// a date and does not meet the minimum age that the planner asks of
/// releases to move to.
pub proof fn law_release_too_young(
    r: ResolvedReference,
    releases: Seq<Release>,
    c: ActioneerConfig,
    ctr: CommentTagResolution,
    now: int,
)
    requires
        !r.located.reference.spec_is_local_reusable_workflow(),
        spec_audit_tier(r.located.reference.kind) == AuditTier::Primary,
    ensures
        has_too_young(spec_evaluate(r, releases, c, ctr, now)) <==> (c.min_release_age is Some
            && r.current.published_at is Some && rfc3339_nanos(r.current.published_at->0@) is Some
            && now - rfc3339_nanos(r.current.published_at->0@)->0 < crate::scan::pin::min_age_nanos(
            c.min_release_age->0,
        )),
        has_too_young(spec_evaluate(r, releases, c, ctr, now)) <==> (c.min_release_age is Some
            && r.current.published_at is Some && rfc3339_nanos(r.current.published_at->0@) is Some
            && !crate::scan::pin::meets_min_age(r.current.published_at->0@, c.min_release_age, now)),
        forall|k: int|
            0 <= k < spec_evaluate(r, releases, c, ctr, now).len() && (#[trigger] spec_evaluate(
                r,
                releases,
                c,
                ctr,
                now,
            )[k]) is ReleaseTooYoung ==> spec_evaluate(r, releases, c, ctr, now)[k] == (
            IssueView::ReleaseTooYoung {
                min_age: crate::config::duration_label(c.min_release_age->0),
                published_at: r.current.published_at->0@,
            }),
{
    let reference = r.located.reference;
    let b = crate::scan::audit::branch_issues(reference.pin_kind, c);
    let p = crate::scan::audit::pin_issues(r, c);
    let v = crate::scan::audit::provenance_issues(r, ctr);
    let m = crate::scan::audit::comment_issues(r);
    let a = crate::scan::audit::age_issues(r.current, c.min_release_age, now);
    let x = if reference.kind == ReferenceKind::Action {
        crate::scan::audit::blocked_issues(r, releases, c)
    } else {
        Seq::empty()
    };
    let all = spec_evaluate(r, releases, c, ctr, now);
    assert(all == b + p + v + m + a + x);
    lemma_one_finding(IssueView::SkippedBranch);
    lemma_one_finding(IssueView::MutableBranch);
    assert(!has_too_young(b));
    let short = if reference.pin_kind == crate::engine::PinKind::ShortSha {
        seq![IssueView::ShortSha]
    } else {
        Seq::empty()
    };
    let not_sha = if c.pin == PinMode::Sha && reference.pin_kind != crate::engine::PinKind::FullSha && (
    reference.kind == ReferenceKind::Action || reference.kind == ReferenceKind::ReusableWorkflow) {
        seq![IssueView::NotShaPinned]
    } else {
        Seq::empty()
    };
    let floating = match reference.git_ref {
        Some(g) if reference.pin_kind == crate::engine::PinKind::Tag
            && crate::scan::pin::spec_classify_tag(g@) is MajorOnly => seq![
            IssueView::FloatingMajorPin { pin: g@ },
        ],
        _ => Seq::empty(),
    };
    assert(p == short + not_sha + floating);
    lemma_one_finding(IssueView::ShortSha);
    lemma_one_finding(IssueView::NotShaPinned);
    if floating.len() > 0 {
        lemma_one_finding(floating[0]);
        assert(floating == seq![floating[0]]);
    }
    lemma_too_young_concat(short, not_sha);
    lemma_too_young_concat(short + not_sha, floating);
    assert(!has_too_young(p));
    if v.len() > 0 {
        lemma_one_finding(v[0]);
        assert(v == seq![v[0]]);
    }
    assert(!has_too_young(v));
    if m.len() > 0 {
        lemma_one_finding(m[0]);
        assert(m == seq![m[0]]);
    }
    assert(!has_too_young(m));
    if x.len() > 0 {
        lemma_one_finding(x[0]);
        assert(x == seq![x[0]]);
    }
    assert(!has_too_young(x));
    if a.len() > 0 {
        lemma_one_finding(a[0]);
        assert(a == seq![a[0]]);
    } else {
        lemma_one_finding(IssueView::ShortSha);
    }
    lemma_too_young_concat(b, p);
    lemma_too_young_concat(b + p, v);
    lemma_too_young_concat(b + p + v, m);
    lemma_too_young_concat(b + p + v + m, a);
    lemma_too_young_concat(b + p + v + m + a, x);
    assert forall|k: int|
        0 <= k < all.len() && (#[trigger] all[k]) is ReleaseTooYoung implies all[k]
        == IssueView::ReleaseTooYoung {
        min_age: crate::config::duration_label(c.min_release_age->0),
        published_at: r.current.published_at->0@,
    } by {
        let pre = b + p + v + m;
        if k < pre.len() {
            lemma_too_young_concat(b + p + v, m);
            assert(pre[k] == all[k]);
            assert(has_too_young(pre));
        } else if k < pre.len() + a.len() {
            assert(all[k] == a[k - pre.len()]);
        } else {
            assert(all[k] == x[k - pre.len() - a.len()]);
            assert(has_too_young(x));
        }
    }
}

/// A primary reference pinned to a branch is always reported first: as
/// skipped when branches are skipped, else as a mutable branch pin.
pub proof fn law_branch_pins_reported(
    r: ResolvedReference,
    releases: Seq<Release>,
    c: ActioneerConfig,
    ctr: CommentTagResolution,
    now: int,
)
    requires
        !r.located.reference.spec_is_local_reusable_workflow(),
        spec_audit_tier(r.located.reference.kind) == AuditTier::Primary,
        r.located.reference.pin_kind == crate::engine::PinKind::Branch,
    ensures
        spec_evaluate(r, releases, c, ctr, now).len() > 0,
        spec_evaluate(r, releases, c, ctr, now)[0] == if c.skip_branches {
            IssueView::SkippedBranch
        } else {
            IssueView::MutableBranch
        },
{
}

// ---------------------------------------------------------------------------
// Planning
// ---------------------------------------------------------------------------
/// A reference with a finding that blocks updates never gets a plan.
pub proof fn law_blocked_never_planned(
    r: ResolvedReference,
    releases: Seq<Release>,
    c: ActioneerConfig,
    issues: Seq<IssueView>,
    known: Seq<TagLookup>,
    now: int,
)
    requires
        exists|k: int| 0 <= k < issues.len() && spec_blocks(#[trigger] issues[k]),
    ensures
        spec_propose(r, releases, c, issues, known, now) == StepView::NoPlan,
{
}

/// With `skip_branches` set, a reference pinned to a branch is never
/// planned.
pub proof fn law_skipped_branches_never_planned(
    r: ResolvedReference,
    releases: Seq<Release>,
    c: ActioneerConfig,
    issues: Seq<IssueView>,
    known: Seq<TagLookup>,
    now: int,
)
    requires
        r.located.reference.pin_kind == crate::engine::PinKind::Branch,
        c.skip_branches,
    ensures
        spec_propose(r, releases, c, issues, known, now) == StepView::NoPlan,
{
}

proof fn lemma_plan_for(
    r: ResolvedReference,
    tag: Seq<char>,
    fv: Option<Seq<char>>,
    c: ActioneerConfig,
    known: Seq<TagLookup>,
)
    ensures
        plan_for(r, tag, fv, c, known) matches StepView::Plan { tag: t, sha, from_version } ==> t == tag
            && lookup(known, t) == Some(Some(sha)) && target_text(
            r.located.reference,
            plan_pin(t, sha, c.pin).0,
            plan_pin(t, sha, c.pin).1,
            c.pin,
        ) != r.located.reference.raw@,
        plan_for(r, tag, fv, c, known) matches StepView::Resolve(t) ==> t == tag && lookup(known, t)
            is None,
{
}

/// A plan always changes what is written on the line, and pins the commit
/// that its release tag was found to resolve to (in SHA mode the line then
/// reads `@<sha> # <tag>`).
pub proof fn law_plan_changes_line(
    r: ResolvedReference,
    releases: Seq<Release>,
    c: ActioneerConfig,
    issues: Seq<IssueView>,
    known: Seq<TagLookup>,
    now: int,
)
    ensures
        spec_propose(r, releases, c, issues, known, now) matches StepView::Plan { tag, sha, from_version }
            ==> lookup(known, tag) == Some(Some(sha)) && target_text(
            r.located.reference,
            plan_pin(tag, sha, c.pin).0,
            plan_pin(tag, sha, c.pin).1,
            c.pin,
        ) != r.located.reference.raw@,
        spec_propose(r, releases, c, issues, known, now) matches StepView::Resolve(t) ==> lookup(
            known,
            t,
        ) is None,
{
    let reference = r.located.reference;
    let result = spec_propose(r, releases, c, issues, known, now);
    if result is Plan || result is Resolve {
        match crate::scan::plan::first_mismatch(issues) {
            Some(comment) => {
                lemma_plan_for(r, comment, Some(comment), c, known);
            },
            None => {
                let fv = crate::scan::pin::spec_written_version_tag(reference);
                match crate::scan::pin::spec_version_baseline(reference) {
                    crate::scan::pin::BaselineView::MajorOnly(major) => {
                        lemma_major_only(r, releases, c, known, now, major, fv);
                    },
                    crate::scan::pin::BaselineView::Exact(v) => {
                        match spec_select_release(releases, v, c.update, c.min_release_age, now) {
                            Some(i) => {
                                lemma_plan_for(r, releases[i].tag_name@, fv, c, known);
                            },
                            None => {},
                        }
                    },
                    _ => {},
                }
            },
        }
    }
}

proof fn lemma_major_only(
    r: ResolvedReference,
    releases: Seq<Release>,
    c: ActioneerConfig,
    known: Seq<TagLookup>,
    now: int,
    major: u64,
    fv: Option<Seq<char>>,
)
    ensures
        major_only_step(r, releases, c, known, now, major, fv) matches StepView::Plan {
            tag,
            sha,
            from_version,
        } ==> lookup(known, tag) == Some(Some(sha)) && target_text(
            r.located.reference,
            plan_pin(tag, sha, c.pin).0,
            plan_pin(tag, sha, c.pin).1,
            c.pin,
        ) != r.located.reference.raw@,
        major_only_step(r, releases, c, known, now, major, fv) matches StepView::Resolve(t) ==> lookup(
            known,
            t,
        ) is None,
{
    match crate::scan::pin::spec_latest_on_major(releases, major) {
        Some(i) => {
            let latest = releases[i];
            lemma_plan_for(r, latest.tag_name@, fv, c, known);
            let order = crate::scan::plan::sort_desc(crate::scan::plan::on_line(releases, major));
            lemma_walk(order, r.current.sha@, known, 0);
            let w = crate::scan::plan::walk_from(order, r.current.sha@, known, 0);
            let cur = match w {
                crate::scan::plan::WalkView::Found(v) => v,
                _ => SemVerView { major, minor: 0, patch: 0, build: Seq::empty() },
            };
            let line = crate::scan::plan::on_line(releases, major);
            match spec_select_release(line, cur, c.update, c.min_release_age, now) {
                Some(j) => {
                    lemma_plan_for(r, line[j].tag_name@, fv, c, known);
                },
                None => {},
            }
        },
        None => {},
    }
}

proof fn lemma_walk(order: Seq<Release>, sha: Seq<char>, known: Seq<TagLookup>, k: int)
    ensures
        crate::scan::plan::walk_from(order, sha, known, k) matches crate::scan::plan::WalkView::Need(
            t,
        ) ==> lookup(known, t) is None,
    decreases order.len() - k,
{
    if 0 <= k < order.len() {
        lemma_walk(order, sha, known, k + 1);
    }
}

/// The `(major, minor, patch)` of `a` is at most that of `b`.
pub open spec fn triple_le(a: SemVerView, b: SemVerView) -> bool {
    a.major < b.major || (a.major == b.major && (a.minor < b.minor || (a.minor == b.minor
        && a.patch <= b.patch)))
}

proof fn lemma_select_fold_highest(
    rs: Seq<Release>,
    current: SemVerView,
    level: crate::config::UpdateLevel,
    min_age: Option<crate::config::RelativeDuration>,
    now: int,
    k: int,
    acc: Option<int>,
)
    requires
        0 <= k <= rs.len(),
        acc matches Some(a) ==> 0 <= a < rs.len() && eligible_release(rs[a], current, level, min_age, now),
        forall|j: int|
            0 <= j < k && eligible_release(#[trigger] rs[j], current, level, min_age, now) ==> (
            acc matches Some(a) && triple_le(release_version(rs[j]), release_version(rs[a]))),
    ensures
        select_fold(rs, current, level, min_age, now, k, acc) matches Some(i) ==> forall|j: int|
            0 <= j < rs.len() && eligible_release(#[trigger] rs[j], current, level, min_age, now)
                ==> triple_le(release_version(rs[j]), release_version(rs[i])),
    decreases rs.len() - k,
{
    if k < rs.len() {
        let take = eligible_release(rs[k], current, level, min_age, now) && (match acc {
            Some(a) => sv_order(release_version(rs[a]), release_version(rs[k])) < 0,
            None => true,
        });
        if take {
            assert forall|j: int|
                0 <= j < k + 1 && eligible_release(#[trigger] rs[j], current, level, min_age, now) implies triple_le(
                release_version(rs[j]),
                release_version(rs[k]),
            ) by {
                if j < k {
                    let a = acc->0;
                    assert(triple_le(release_version(rs[j]), release_version(rs[a])));
                }
            }
            lemma_select_fold_highest(rs, current, level, min_age, now, k + 1, Some(k));
        } else {
            assert forall|j: int|
                0 <= j < k + 1 && eligible_release(#[trigger] rs[j], current, level, min_age, now) implies (
            acc matches Some(a) && triple_le(release_version(rs[j]), release_version(rs[a]))) by {
                if j == k {
                    let a = acc->0;
                    assert(sv_order(release_version(rs[a]), release_version(rs[k])) >= 0);
                }
            }
            lemma_select_fold_highest(rs, current, level, min_age, now, k + 1, acc);
        }
    }
}

/// The release chosen for an update is eligible, and no eligible release
/// has a higher `major.minor.patch`.
pub proof fn law_selected_release_is_highest(
    rs: Seq<Release>,
    current: SemVerView,
    level: crate::config::UpdateLevel,
    min_age: Option<crate::config::RelativeDuration>,
    now: int,
)
    ensures
        spec_select_release(rs, current, level, min_age, now) matches Some(i) ==> 0 <= i < rs.len()
            && eligible_release(rs[i], current, level, min_age, now) && forall|j: int|
            0 <= j < rs.len() && eligible_release(#[trigger] rs[j], current, level, min_age, now)
                ==> triple_le(release_version(rs[j]), release_version(rs[i])),
{
    crate::scan::pin::lemma_select_fold_eligible(rs, current, level, min_age, now, 0, None);
    lemma_select_fold_highest(rs, current, level, min_age, now, 0, None);
}

/// An update never moves to an older or equal version, stays within the
/// allowed semver bump, skips prereleases, and takes no release younger
/// than the minimum age.
pub proof fn law_update_respects_policy(
    rs: Seq<Release>,
    current: SemVerView,
    level: crate::config::UpdateLevel,
    min_age: Option<crate::config::RelativeDuration>,
    now: int,
)
    ensures
        spec_select_release(rs, current, level, min_age, now) matches Some(i) ==> {
            let v = release_version(rs[i]);
            &&& sv_order(v, current) > 0
            &&& level == crate::config::UpdateLevel::Patch ==> v.major == current.major && v.minor
                == current.minor
            &&& level == crate::config::UpdateLevel::Minor ==> v.major == current.major
            &&& !rs[i].prerelease
            &&& crate::scan::pin::meets_min_age(rs[i].published_at@, min_age, now)
        },
{
    crate::scan::pin::lemma_select_fold_eligible(rs, current, level, min_age, now, 0, None);
}

/// `tag` names a version above `v` that update level `level` allows: any
/// for `major`, the same major for `minor`, the same major and minor for
/// `patch`.
pub open spec fn allowed_move(tag: Seq<char>, v: SemVerView, level: crate::config::UpdateLevel) -> bool {
    &&& spec_semver_tag(tag) matches Some(w)
    &&& sv_order(spec_semver_tag(tag)->0, v) > 0
    &&& level == crate::config::UpdateLevel::Minor ==> spec_semver_tag(tag)->0.major == v.major
    &&& level == crate::config::UpdateLevel::Patch ==> spec_semver_tag(tag)->0.major == v.major
        && spec_semver_tag(tag)->0.minor == v.minor
}

/// When the pin names an exact version `v` (and no SHA/comment mismatch
/// calls for a fix), the release that the planner moves to, or asks to
/// resolve first, names a version above `v` within the configured update
/// level; the plan's release is published and old enough at `now`.
pub proof fn law_exact_pin_moves_within_level(
    r: ResolvedReference,
    releases: Seq<Release>,
    c: ActioneerConfig,
    issues: Seq<IssueView>,
    known: Seq<TagLookup>,
    now: int,
    v: SemVerView,
)
    requires
        first_mismatch(issues) is None,
        spec_version_baseline(r.located.reference) == BaselineView::Exact(v),
    ensures
        spec_propose(r, releases, c, issues, known, now) matches StepView::Plan { tag, .. } ==> allowed_move(
            tag,
            v,
            c.update,
        ) && exists|i: int|
            0 <= i < releases.len() && #[trigger] releases[i].tag_name@ == tag && !releases[i].prerelease
                && crate::scan::pin::meets_min_age(releases[i].published_at@, c.min_release_age, now),
        spec_propose(r, releases, c, issues, known, now) matches StepView::Resolve(t) ==> allowed_move(
            t,
            v,
            c.update,
        ),
{
    let fv = crate::scan::pin::spec_written_version_tag(r.located.reference);
    crate::scan::pin::lemma_select_fold_eligible(releases, v, c.update, c.min_release_age, now, 0, None);
    match spec_select_release(releases, v, c.update, c.min_release_age, now) {
        Some(i) => {
            lemma_plan_for(r, releases[i].tag_name@, fv, c, known);
            assert(eligible_release(releases[i], v, c.update, c.min_release_age, now));
        },
        None => {},
    }
}

/// The release of `rs` that entry `j` of its major line `major` is.
proof fn lemma_on_line_source(rs: Seq<Release>, major: u64, j: int) -> (i: int)
    requires
        0 <= j < crate::scan::plan::on_line(rs, major).len(),
    ensures
        0 <= i < rs.len(),
        rs[i] == crate::scan::plan::on_line(rs, major)[j],
        crate::scan::pin::on_major(rs[i], major),
    decreases rs.len(),
{
    let front = rs.drop_last();
    let rest = crate::scan::plan::on_line(front, major);
    if j < rest.len() {
        let i = lemma_on_line_source(front, major, j);
        assert(rs[i] == front[i]);
        i
    } else {
        (rs.len() - 1) as int
    }
}

/// A pin on a floating major tag (such as `v4`), when no SHA/comment
/// mismatch calls for a fix, is only ever moved to a published release
/// whose tag names a full version on the same major line.
pub proof fn law_floating_major_stays_on_line(
    r: ResolvedReference,
    releases: Seq<Release>,
    c: ActioneerConfig,
    issues: Seq<IssueView>,
    known: Seq<TagLookup>,
    now: int,
    major: u64,
)
    requires
        first_mismatch(issues) is None,
        spec_version_baseline(r.located.reference) == BaselineView::MajorOnly(major),
    ensures
        spec_propose(r, releases, c, issues, known, now) matches StepView::Plan { tag, .. } ==> spec_semver_tag(
            tag,
        ) is Some && spec_semver_tag(tag)->0.major == major && exists|i: int|
            0 <= i < releases.len() && #[trigger] releases[i].tag_name@ == tag && !releases[i].prerelease,
{
    let fv = crate::scan::pin::spec_written_version_tag(r.located.reference);
    crate::scan::pin::lemma_latest_fold_on_major(releases, major, 0, None);
    match crate::scan::pin::spec_latest_on_major(releases, major) {
        Some(i) => {
            let latest = releases[i];
            lemma_plan_for(r, latest.tag_name@, fv, c, known);
            let order = crate::scan::plan::sort_desc(crate::scan::plan::on_line(releases, major));
            let w = crate::scan::plan::walk_from(order, r.current.sha@, known, 0);
            let cur = match w {
                crate::scan::plan::WalkView::Found(v) => v,
                _ => SemVerView { major, minor: 0, patch: 0, build: Seq::empty() },
            };
            let line = crate::scan::plan::on_line(releases, major);
            crate::scan::pin::lemma_select_fold_eligible(line, cur, c.update, c.min_release_age, now, 0, None);
            match spec_select_release(line, cur, c.update, c.min_release_age, now) {
                Some(j) => {
                    lemma_plan_for(r, line[j].tag_name@, fv, c, known);
                    let k = lemma_on_line_source(releases, major, j);
                    assert(releases[k].tag_name@ == line[j].tag_name@);
                },
                None => {},
            }
        },
        None => {},
    }
}

// ---------------------------------------------------------------------------
// Reading workflows
// ---------------------------------------------------------------------------
proof fn lemma_cursor_in_range(lines: Seq<Seq<char>>, refs: Seq<RefView>, i: int)
    requires
        0 <= i <= refs.len(),
    ensures
        0 <= cursor_at(lines, refs, i) <= lines.len(),
    decreases i,
{
    if i > 0 {
        lemma_cursor_in_range(lines, refs, i - 1);
        crate::text::lemma_find_from_result(
            lines,
            line_has_raw(refs[i - 1].raw),
            cursor_at(lines, refs, i - 1),
        );
    }
}

proof fn lemma_cursor_grows(lines: Seq<Seq<char>>, refs: Seq<RefView>, i: int, k: int)
    requires
        0 <= i <= k <= refs.len(),
    ensures
        cursor_at(lines, refs, i) <= cursor_at(lines, refs, k),
    decreases k - i,
{
    if i < k {
        lemma_cursor_grows(lines, refs, i, k - 1);
        lemma_cursor_in_range(lines, refs, k - 1);
        crate::text::lemma_find_from_result(
            lines,
            line_has_raw(refs[k - 1].raw),
            cursor_at(lines, refs, k - 1),
        );
    }
}

/// Two references that are both found on a `uses:` line get different
/// lines, in document order: the scan for each reference starts past the
/// line found for the one before, so the lines of found references
/// strictly increase.
pub proof fn law_found_lines_increase(lines: Seq<Seq<char>>, refs: Seq<RefView>, i: int, k: int)
    requires
        lines.len() < u32::MAX,
        0 <= i < k < refs.len(),
        refs[i].line is None,
        refs[k].line is None,
        located(lines, refs[i], cursor_at(lines, refs, i)).line is Some,
        located(lines, refs[k], cursor_at(lines, refs, k)).line is Some,
    ensures
        located(lines, refs[i], cursor_at(lines, refs, i)).line->0 < located(
            lines,
            refs[k],
            cursor_at(lines, refs, k),
        ).line->0,
{
    lemma_cursor_in_range(lines, refs, i);
    lemma_cursor_in_range(lines, refs, k);
    lemma_cursor_grows(lines, refs, i + 1, k);
    crate::text::lemma_find_from_result(lines, line_has_raw(refs[i].raw), cursor_at(lines, refs, i));
    crate::text::lemma_find_from_result(lines, line_has_raw(refs[k].raw), cursor_at(lines, refs, k));
    let ji = locate(lines, refs[i].raw, cursor_at(lines, refs, i))->0;
    let jk = locate(lines, refs[k].raw, cursor_at(lines, refs, k))->0;
    assert(cursor_at(lines, refs, i + 1) == ji + 1);
    assert(ji < jk);
}

// ---------------------------------------------------------------------------
// Applying
// ---------------------------------------------------------------------------
/// Applying a target rewrites at most its own line: the other lines and the
/// number of lines stay as they were.
pub proof fn law_apply_touches_only_its_line(
    ws: Seq<WorkflowReport>,
    path: Seq<char>,
    target_line: u32,
    lines: Seq<Seq<char>>,
    mode: crate::config::PinMode,
)
    ensures
        spec_step_lines(ws, path, target_line, lines, mode).len() == lines.len(),
        forall|k: int|
            0 <= k < lines.len() && k != target_line - 1 ==> #[trigger] spec_step_lines(
                ws,
                path,
                target_line,
                lines,
                mode,
            )[k] == lines[k],
{
}

/// The reference report that a target on `line` of `path` applies.
pub open spec fn target_report(ws: Seq<WorkflowReport>, path: Seq<char>, line: u32) -> crate::scan::types::ReferenceReport {
    let (w, i) = spec_find_reference(ws, path, line)->0;
    ws[w].references@[i]
}

/// In SHA mode a line that applies is rewritten to its key followed by the
/// value with its `@ref` replaced by the planned commit and with the
/// planned version as the comment, whatever comment the line had before.
/// For an unquoted value that is the plan's target text
/// (`<base>@<sha> # <version>`), which the planner compared with the
/// written value.
/// A target that applies names a planned reference on its own line, which
/// exists and holds a `uses:` value.
proof fn lemma_target_applies(ws: Seq<WorkflowReport>, path: Seq<char>, line: u32, lines: Seq<Seq<char>>)
    requires
        spec_apply_error(ws, path, line, lines) is None,
    ensures
        spec_find_reference(ws, path, line) is Some,
        target_report(ws, path, line).planned is Some,
        target_report(ws, path, line).resolved.located.reference.line == Some(line),
        1 <= line <= lines.len(),
        spec_split(lines[line - 1]) is Some,
{
}

pub proof fn law_sha_apply_writes_planned_comment(
    ws: Seq<WorkflowReport>,
    path: Seq<char>,
    line: u32,
    lines: Seq<Seq<char>>,
)
    requires
        spec_apply_error(ws, path, line, lines) is None,
    ensures
        1 <= line <= lines.len(),
        spec_split(lines[line - 1]) is Some,
        ({
            let (head, _, quote, _) = spec_split(lines[line - 1])->0;
            let p = target_report(ws, path, line).planned->0;
            let raw = target_report(ws, path, line).resolved.located.reference.raw@;
            spec_step_lines(ws, path, line, lines, PinMode::Sha) == lines.update(
                line - 1,
                head + spec_format_uses_value(before_last_at(raw) + "@"@ + p.to_ref@, quote, opt_view(p.to_comment)),
            )
        }),
        ({
            let (head, _, quote, _) = spec_split(lines[line - 1])->0;
            let rr = target_report(ws, path, line);
            let p = rr.planned->0;
            quote == QuoteStyle::Unquoted && (p.to_comment matches Some(c) ==> c@.len() > 0) ==> spec_step_lines(
                ws,
                path,
                line,
                lines,
                PinMode::Sha,
            )[line - 1] == head + spec_target_value(rr.resolved.located.reference, p, PinMode::Sha)
        }),
{
    reveal_strlit("@");
    reveal_strlit(" # ");
    lemma_target_applies(ws, path, line, lines);
    let rr = target_report(ws, path, line);
    let p = rr.planned->0;
    let (head, _, quote, _) = spec_split(lines[line - 1])->0;
    let plain = before_last_at(rr.resolved.located.reference.raw@) + "@"@ + p.to_ref@;
    if quote == QuoteStyle::Unquoted {
        match p.to_comment {
            Some(c) => {
                if c@.len() > 0 {
                    assert(spec_format_uses_value(plain, quote, opt_view(p.to_comment)) =~= plain + " # "@
                        + c@);
                }
            },
            None => {},
        }
    }
}

/// In tag mode an unquoted line that applies is rewritten to its key and
/// the value with its `@ref` replaced by the planned tag; a line that had a
/// comment gets the tag as its comment, and a line without one gets none.
#[verifier::rlimit(40)]
pub proof fn law_tag_apply_keeps_comment_presence(
    ws: Seq<WorkflowReport>,
    path: Seq<char>,
    line: u32,
    lines: Seq<Seq<char>>,
)
    requires
        spec_apply_error(ws, path, line, lines) is None,
    ensures
        1 <= line <= lines.len(),
        spec_split(lines[line - 1]) is Some,
        ({
            let (head, _, quote, comment) = spec_split(lines[line - 1])->0;
            let p = target_report(ws, path, line).planned->0;
            let plain = before_last_at(target_report(ws, path, line).resolved.located.reference.raw@) + "@"@
                + p.to_ref@;
            let new_line = spec_step_lines(ws, path, line, lines, PinMode::Tag)[line - 1];
            quote == QuoteStyle::Unquoted && p.to_ref@.len() > 0 ==> new_line == if comment is Some {
                head + plain + " # "@ + p.to_ref@
            } else {
                head + plain
            }
        }),
{
    reveal_strlit(" # ");
    lemma_target_applies(ws, path, line, lines);
    let rr = target_report(ws, path, line);
    let p = rr.planned->0;
    let after = spec_step_lines(ws, path, line, lines, PinMode::Tag);
    assert(after == lines.update(line - 1, crate::scan::apply::spec_new_line(rr, lines, PinMode::Tag)));
    assert(after[line - 1] == crate::scan::apply::spec_new_line(rr, lines, PinMode::Tag));
    let (head, _, quote, comment) = spec_split(lines[line - 1])->0;
    let plain = before_last_at(target_report(ws, path, line).resolved.located.reference.raw@) + "@"@
        + p.to_ref@;
    if quote == QuoteStyle::Unquoted && p.to_ref@.len() > 0 && comment is Some {
        assert(spec_format_uses_value(plain, quote, Some(p.to_ref@)) =~= plain + " # "@ + p.to_ref@);
    }
}

// ---------------------------------------------------------------------------
// Cache files
// ---------------------------------------------------------------------------
/// An encoded ref has no `/`, so its cache file stays in its directory.
pub proof fn law_encoded_ref_has_no_slash(s: Seq<char>)
    ensures
        !spec_encode_ref(s).contains('/'),
    decreases s.len(),
{
    if s.len() > 0 {
        law_encoded_ref_has_no_slash(s.drop_last());
        let rest = spec_encode_ref(s.drop_last());
        if s.last() == '/' {
            let e = rest + "%2F"@;
            assert forall|k: int| 0 <= k < e.len() implies e[k] != '/' by {
                reveal_strlit("%2F");
                if k < rest.len() {
                    assert(e[k] == rest[k]);
                    assert(!rest.contains('/'));
                }
            }
        } else {
            let e = rest.push(s.last());
            assert forall|k: int| 0 <= k < e.len() implies e[k] != '/' by {
                if k < rest.len() {
                    assert(e[k] == rest[k]);
                }
            }
        }
    }
}

// ---------------------------------------------------------------------------
// Plain output
// ---------------------------------------------------------------------------
pub open spec fn all_digit_code(s: Seq<char>) -> bool {
    forall|k: int| 0 <= k < s.len() ==> crate::text::is_digit(#[trigger] s[k])
}

pub open spec fn no_escape(s: Seq<char>) -> bool {
    forall|k: int| 0 <= k < s.len() ==> #[trigger] s[k] != '\x1b'
}

proof fn lemma_strip_plain_prefix(x: Seq<char>, y: Seq<char>)
    requires
        no_escape(x),
    ensures
        spec_strip_csi(x + y) == x + spec_strip_csi(y),
    decreases x.len(),
{
    if x.len() > 0 {
        assert((x + y)[0] == x[0]);
        assert((x + y).drop_first() == x.drop_first() + y);
        lemma_strip_plain_prefix(x.drop_first(), y);
        assert(x == seq![x[0]] + x.drop_first());
    } else {
        assert(x + y == y);
    }
}

proof fn lemma_letter_run_code(code: Seq<char>, tail: Seq<char>)
    requires
        all_digit_code(code),
        tail.len() > 0,
        crate::text::is_alpha(tail[0]),
    ensures
        letter_run(code + tail) == code.len(),
    decreases code.len(),
{
    if code.len() > 0 {
        assert((code + tail).drop_first() == code.drop_first() + tail);
        lemma_letter_run_code(code.drop_first(), tail);
    } else {
        assert(code + tail == tail);
    }
}

proof fn lemma_strip_sequence(code: Seq<char>, y: Seq<char>)
    requires
        all_digit_code(code),
    ensures
        spec_strip_csi(seq!['\x1b', '['] + code + seq!['m'] + y) == spec_strip_csi(y),
{
    let s = seq!['\x1b', '['] + code + seq!['m'] + y;
    let rest = s.skip(2);
    assert(rest == code + (seq!['m'] + y));
    lemma_letter_run_code(code, seq!['m'] + y);
    assert(rest.skip((code.len() + 1) as int) == y);
}

/// Stripping the escape sequences from coloured text gives the text back:
/// for a numeric colour code and reset and text without escapes.
pub proof fn law_strip_undoes_colour(code: Seq<char>, s: Seq<char>, reset: Seq<char>)
    requires
        all_digit_code(code),
        all_digit_code(reset),
        no_escape(s),
    ensures
        spec_strip_csi(sgr(code, s, reset)) == s,
{
    let tail = seq!['\x1b', '['] + reset + seq!['m'];
    assert(sgr(code, s, reset) == seq!['\x1b', '['] + code + seq!['m'] + (s + tail));
    lemma_strip_sequence(code, s + tail);
    lemma_strip_plain_prefix(s, tail);
    lemma_strip_sequence(reset, Seq::empty());
    assert(tail == seq!['\x1b', '['] + reset + seq!['m'] + Seq::<char>::empty());
    assert(spec_strip_csi(Seq::<char>::empty()) == Seq::<char>::empty());
}

// ---------------------------------------------------------------------------
// Selection
// ---------------------------------------------------------------------------
proof fn lemma_all_selected(items: Seq<ItemView>, value: bool)
    ensures
        selected_in(items.map_values(|i: ItemView| ItemView { selected: value, ..i })) == if value {
            items.len()
        } else {
            0
        },
    decreases items.len(),
{
    if items.len() > 0 {
        lemma_all_selected(items.drop_last(), value);
        assert(items.map_values(|i: ItemView| ItemView { selected: value, ..i }).drop_last()
            == items.drop_last().map_values(|i: ItemView| ItemView { selected: value, ..i }));
    }
}

/// Selecting all selects every planned item; selecting none leaves none selected.
pub proof fn law_select_all_and_none(gs: Seq<GroupView>)
    ensures
        selected_total(with_selection(gs, true)) == total_items(gs),
        selected_total(with_selection(gs, false)) == 0,
    decreases gs.len(),
{
    if gs.len() > 0 {
        law_select_all_and_none(gs.drop_last());
        assert(with_selection(gs, true).drop_last() == with_selection(gs.drop_last(), true));
        assert(with_selection(gs, false).drop_last() == with_selection(gs.drop_last(), false));
        lemma_all_selected(gs.last().items, true);
        lemma_all_selected(gs.last().items, false);
    }
}

/// Toggling the same item, or the same group, twice restores the selection.
pub proof fn law_toggle_twice(gs: Seq<GroupView>, g: int, i: int)
    requires
        0 <= g < gs.len(),
        0 <= i < gs[g].items.len(),
    ensures
        toggle_item(toggle_item(gs, g, i), g, i) == gs,
        toggle_group(toggle_group(gs, g), g) == gs,
{
    assert(toggle_item(toggle_item(gs, g, i), g, i)[g].items =~= gs[g].items);
    assert(toggle_item(toggle_item(gs, g, i), g, i) =~= gs);
    assert(toggle_group(toggle_group(gs, g), g) =~= gs);
}

proof fn lemma_selected_target_count(path: Seq<char>, items: Seq<ItemView>)
    ensures
        targets_in(path, items).len() == selected_in(items),
    decreases items.len(),
{
    if items.len() > 0 {
        lemma_selected_target_count(path, items.drop_last());
    }
}

/// The selected item that target `k` of a group comes from.
proof fn lemma_target_source(path: Seq<char>, items: Seq<ItemView>, k: int) -> (i: int)
    requires
        0 <= k < targets_in(path, items).len(),
    ensures
        0 <= i < items.len(),
        items[i].selected,
        targets_in(path, items)[k] == (path, items[i].line),
    decreases items.len(),
{
    let front = items.drop_last();
    let rest = targets_in(path, front);
    if k < rest.len() {
        let i = lemma_target_source(path, front, k);
        assert(items[i] == front[i]);
        i
    } else {
        (items.len() - 1) as int
    }
}

/// The group and item that target `k` of the selection comes from.
proof fn lemma_selection_source(gs: Seq<GroupView>, k: int) -> (gi: (int, int))
    requires
        0 <= k < selected_targets(gs).len(),
    ensures
        0 <= gi.0 < gs.len(),
        0 <= gi.1 < gs[gi.0].items.len(),
        gs[gi.0].items[gi.1].selected,
        selected_targets(gs)[k] == (gs[gi.0].path, gs[gi.0].items[gi.1].line),
    decreases gs.len(),
{
    let front = gs.drop_last();
    let rest = selected_targets(front);
    let last = targets_in(gs.last().path, gs.last().items);
    assert(selected_targets(gs) == rest + last);
    if k < rest.len() {
        let (g, i) = lemma_selection_source(front, k);
        assert(gs[g] == front[g]);
        (g, i)
    } else {
        let i = lemma_target_source(gs.last().path, gs.last().items, k - rest.len());
        ((gs.len() - 1) as int, i)
    }
}

proof fn lemma_selection_count(gs: Seq<GroupView>)
    ensures
        selected_targets(gs).len() == selected_total(gs),
    decreases gs.len(),
{
    if gs.len() > 0 {
        lemma_selection_count(gs.drop_last());
        lemma_selected_target_count(gs.last().path, gs.last().items);
    }
}

/// `t` is the workflow path and line of a selected item of `gs`.
pub open spec fn from_selected_item(gs: Seq<GroupView>, t: (Seq<char>, u32)) -> bool {
    exists|g: int, i: int|
        0 <= g < gs.len() && 0 <= i < gs[g].items.len() && (#[trigger] gs[g].items[i]).selected && t.0
            == gs[g].path && t.1 == gs[g].items[i].line
}

/// Applying the selection takes exactly the selected items: as many targets
/// as items are selected, each the workflow path and line of a selected
/// item.
pub proof fn law_selected_targets_are_the_selection(gs: Seq<GroupView>)
    ensures
        selected_targets(gs).len() == selected_total(gs),
        forall|k: int|
            0 <= k < selected_targets(gs).len() ==> from_selected_item(gs, #[trigger] selected_targets(gs)[k]),
{
    lemma_selection_count(gs);
    assert forall|k: int| 0 <= k < selected_targets(gs).len() implies from_selected_item(
        gs,
        #[trigger] selected_targets(gs)[k],
    ) by {
        let (g, i) = lemma_selection_source(gs, k);
        assert(gs[g].items[i].selected);
    }
}

/// Moving the focus stays on a focusable row.
pub proof fn law_focus_in_range(v: int, len: int)
    requires
        len > 0,
    ensures
        0 <= clamp(v, 0, len - 1) < len,
{
}

/// Scrolling keeps the focused row inside the viewport.
pub proof fn law_scroll_shows_focus(focusable: Seq<usize>, focus: usize, scroll: usize, visible: usize)
    requires
        visible > 0,
        focus < focusable.len(),
    ensures
        spec_scroll(focusable, focus, scroll, visible) <= focusable[focus as int] < spec_scroll(
            focusable,
            focus,
            scroll,
            visible,
        ) + visible,
{
}

// ---------------------------------------------------------------------------
// Workflow discovery
// ---------------------------------------------------------------------------
/// Explicit workflow targets resolve to paths in path order, each path once:
/// every path sorts before the next.
pub proof fn law_targets_in_path_order(targets: Seq<Target>)
    ensures
        targets_from(Seq::empty(), targets) matches Ok(r) ==> strictly_in_order(r),
{
    lemma_targets_strict(Seq::empty(), targets);
}

/// Explicit targets resolve to nothing but file targets and the YAML files
/// listed directly in directory targets: directories are not descended
/// into, and no other file comes in.
pub proof fn law_targets_offer_only(targets: Seq<Target>)
    ensures
        targets_from(Seq::empty(), targets) matches Ok(r) ==> forall|x: Seq<char>|
            #[trigger] r.contains(x) ==> crate::discovery::offered(targets, x),
{
    crate::discovery::lemma_targets_from_offered(Seq::empty(), targets);
}

/// Every file target and every YAML file listed directly in a directory
/// target comes out of resolving the targets (perhaps written another way,
/// as the same path).
pub proof fn law_targets_bring_every_offered_file(targets: Seq<Target>)
    ensures
        targets_from(Seq::empty(), targets) matches Ok(r) ==> forall|q: Seq<char>|
            crate::discovery::offered(targets, q) ==> #[trigger] crate::discovery::holds_path(r, q),
{
    crate::discovery::lemma_targets_hold_offered(Seq::empty(), targets);
}

/// Resolving targets fails with the error of the first target that is
/// missing, not YAML, neither a file nor a directory, or unreadable, and
/// succeeds when there is none.
pub proof fn law_targets_first_error(targets: Seq<Target>)
    ensures
        targets_from(Seq::empty(), targets) matches Err(e) ==> exists|k: int|
            0 <= k < targets.len() && crate::discovery::target_error(#[trigger] targets[k]) == Some(e) && forall|j: int|
                0 <= j < k ==> crate::discovery::target_error(#[trigger] targets[j]) is None,
        (forall|k: int| 0 <= k < targets.len() ==> crate::discovery::target_error(#[trigger] targets[k]) is None)
            ==> targets_from(Seq::empty(), targets) is Ok,
{
    crate::discovery::lemma_targets_first_error(Seq::empty(), targets);
}

/// Every YAML file listed directly in the default directory comes out of
/// discovery (perhaps written another way, as the same path).
pub proof fn law_default_workflows_bring_every_listed_file(listing: Option<Result<Vec<String>, String>>)
    ensures
        spec_default_workflows(listing) matches Ok(r) ==> (listing matches Some(Ok(fs)) ==> forall|k: int|
            0 <= k < crate::discovery::yaml_only(crate::discovery::views(fs@)).len() ==> crate::discovery::holds_path(
                r,
                #[trigger] crate::discovery::yaml_only(crate::discovery::views(fs@))[k],
            )),
{
    if let Some(Ok(fs)) = listing {
        crate::discovery::lemma_insert_paths_keeps(Seq::empty(), crate::discovery::yaml_only(crate::discovery::views(fs@)), false);
    }
}

/// The workflows of the default directory are YAML files listed directly
/// in it: none when it does not exist.
pub proof fn law_default_workflows_from_listing(listing: Option<Result<Vec<String>, String>>)
    ensures
        spec_default_workflows(listing) matches Ok(r) ==> forall|x: Seq<char>| #[trigger] r.contains(x) ==> (
        listing matches Some(Ok(fs)) && crate::discovery::yaml_only(crate::discovery::views(fs@)).contains(x)),
        listing is None ==> spec_default_workflows(listing) == Ok::<Seq<Seq<char>>, crate::discovery::DiscoveryError>(
            Seq::empty(),
        ),
{
    crate::discovery::lemma_default_from_listing(listing);
}

/// The workflows of the default directory come in path order.
pub proof fn law_default_workflows_in_order(listing: Option<Result<Vec<String>, String>>)
    ensures
        spec_default_workflows(listing) matches Ok(r) ==> in_order(r),
{
    lemma_default_in_order(listing);
}

// ---------------------------------------------------------------------------
// Resolving update targets
// ---------------------------------------------------------------------------
proof fn lemma_best_fold(
    tags: Seq<crate::model::Tag>,
    cur: Option<crate::actions::version::Version>,
    mode: crate::model::UpdateMode,
    k: int,
    acc: Option<int>,
)
    requires
        0 <= k <= tags.len(),
        acc matches Some(a) ==> 0 <= a < k && crate::resolve::eligible(tags[a].version, cur, mode) && forall|j: int|
            0 <= j < k && crate::resolve::eligible(#[trigger] tags[j].version, cur, mode)
                ==> crate::actions::version::version_le(tags[j].version, tags[a].version),
        acc is None ==> forall|j: int| 0 <= j < k ==> !crate::resolve::eligible(#[trigger] tags[j].version, cur, mode),
    ensures
        crate::resolve::best_fold(tags, cur, mode, k, acc) matches Some(i) ==> 0 <= i < tags.len()
            && crate::resolve::eligible(tags[i].version, cur, mode) && forall|j: int|
            0 <= j < tags.len() && crate::resolve::eligible(#[trigger] tags[j].version, cur, mode)
                ==> crate::actions::version::version_le(tags[j].version, tags[i].version),
        crate::resolve::best_fold(tags, cur, mode, k, acc) is None ==> forall|j: int|
            0 <= j < tags.len() ==> !crate::resolve::eligible(#[trigger] tags[j].version, cur, mode),
    decreases tags.len() - k,
{
    if k < tags.len() {
        if crate::resolve::eligible(tags[k].version, cur, mode) && (match acc {
            Some(a) => crate::actions::version::version_le(tags[a].version, tags[k].version),
            None => true,
        }) {
            lemma_best_fold(tags, cur, mode, k + 1, Some(k));
        } else {
            lemma_best_fold(tags, cur, mode, k + 1, acc);
        }
    }
}

/// The tag an action moves to is allowed by the update mode from its current
/// version, and no allowed tag has a greater version; when there is none,
/// no tag is allowed.
pub proof fn law_resolved_target_is_greatest(
    tags: Seq<crate::model::Tag>,
    cur: Option<crate::actions::version::Version>,
    mode: crate::model::UpdateMode,
)
    ensures
        crate::resolve::spec_best_target(tags, cur, mode) matches Some(i) ==> 0 <= i < tags.len()
            && crate::resolve::eligible(tags[i].version, cur, mode) && forall|j: int|
            0 <= j < tags.len() && crate::resolve::eligible(#[trigger] tags[j].version, cur, mode)
                ==> crate::actions::version::version_le(tags[j].version, tags[i].version),
        crate::resolve::spec_best_target(tags, cur, mode) is None ==> forall|j: int|
            0 <= j < tags.len() ==> !crate::resolve::eligible(#[trigger] tags[j].version, cur, mode),
{
    lemma_best_fold(tags, cur, mode, 0, None);
}

proof fn lemma_latest_fold_greatest(rs: Seq<Release>, major: u64, k: int, acc: Option<int>)
    requires
        0 <= k <= rs.len(),
        acc matches Some(a) ==> 0 <= a < k && crate::scan::pin::on_major(rs[a], major) && forall|j: int|
            0 <= j < k && crate::scan::pin::on_major(#[trigger] rs[j], major) ==> triple_le(
                release_version(rs[j]),
                release_version(rs[a]),
            ),
        acc is None ==> forall|j: int| 0 <= j < k ==> !crate::scan::pin::on_major(#[trigger] rs[j], major),
    ensures
        crate::scan::pin::latest_fold(rs, major, k, acc) matches Some(i) ==> 0 <= i < rs.len()
            && crate::scan::pin::on_major(rs[i], major) && forall|j: int|
            0 <= j < rs.len() && crate::scan::pin::on_major(#[trigger] rs[j], major) ==> triple_le(
                release_version(rs[j]),
                release_version(rs[i]),
            ),
        crate::scan::pin::latest_fold(rs, major, k, acc) is None ==> forall|j: int|
            0 <= j < rs.len() ==> !crate::scan::pin::on_major(#[trigger] rs[j], major),
    decreases rs.len() - k,
{
    if k < rs.len() {
        if crate::scan::pin::on_major(rs[k], major) && (match acc {
            Some(a) => sv_order(release_version(rs[a]), release_version(rs[k])) <= 0,
            None => true,
        }) {
            lemma_latest_fold_greatest(rs, major, k + 1, Some(k));
        } else {
            lemma_latest_fold_greatest(rs, major, k + 1, acc);
        }
    }
}

/// The newest release on a major line exists exactly when some published
/// release has a full version on that line, and no such release has a
/// greater `major.minor.patch`.
pub proof fn law_latest_on_major(rs: Seq<Release>, major: u64)
    ensures
        crate::scan::pin::spec_latest_on_major(rs, major) is Some <==> exists|j: int|
            0 <= j < rs.len() && crate::scan::pin::on_major(#[trigger] rs[j], major),
        crate::scan::pin::spec_latest_on_major(rs, major) matches Some(i) ==> 0 <= i < rs.len()
            && crate::scan::pin::on_major(rs[i], major) && forall|j: int|
            0 <= j < rs.len() && crate::scan::pin::on_major(#[trigger] rs[j], major) ==> triple_le(
                release_version(rs[j]),
                release_version(rs[i]),
            ),
{
    lemma_latest_fold_greatest(rs, major, 0, None);
}

// ---------------------------------------------------------------------------
// `uses:` lines
// ---------------------------------------------------------------------------
proof fn lemma_lead_ws_props(x: Seq<char>)
    ensures
        crate::text::lead_ws(x) <= x.len(),
        forall|j: int| 0 <= j < crate::text::lead_ws(x) ==> crate::text::is_ws(#[trigger] x[j]),
        crate::text::lead_ws(x) < x.len() ==> !crate::text::is_ws(x[crate::text::lead_ws(x) as int]),
    decreases x.len(),
{
    if x.len() > 0 && crate::text::is_ws(x[0]) {
        lemma_lead_ws_props(x.drop_first());
        assert forall|j: int| 0 <= j < crate::text::lead_ws(x) implies crate::text::is_ws(#[trigger] x[j]) by {
            if j > 0 {
                assert(x[j] == x.drop_first()[j - 1]);
            }
        }
    }
}

proof fn lemma_key_then_ws(s: Seq<char>, base: int, rel: int)
    requires
        0 <= base <= s.len(),
        crate::text::occurs_at(s.skip(base), "uses:"@, rel),
    ensures
        ({
            let i = base + rel + 5 + crate::text::lead_ws(s.skip(base).skip(rel + 5));
            &&& 0 <= i <= s.len()
            &&& i == s.len() || !crate::text::is_ws(s[i])
            &&& crate::text::occurs_at(s, "uses:"@, base + rel)
            &&& forall|j: int| base + rel + 5 <= j < i ==> crate::text::is_ws(#[trigger] s[j])
        }),
{
    reveal_strlit("uses:");
    let after = s.skip(base);
    let k = base + rel;
    assert(s.subrange(k, k + "uses:"@.len()) =~= after.subrange(rel, rel + "uses:"@.len()));
    let after_key = after.skip(rel + 5);
    assert(after_key =~= s.skip(k + 5));
    lemma_lead_ws_props(after_key);
    let i = k + 5 + crate::text::lead_ws(after_key);
    assert forall|j: int| k + 5 <= j < i implies crate::text::is_ws(#[trigger] s[j]) by {
        assert(s[j] == after_key[j - k - 5]);
    }
    if i < s.len() {
        assert(s[i] == after_key[i - k - 5]);
    }
}

/// The value of a `uses:` line starts after the first `uses:` key that
/// follows the indentation (and one `- `), past the blanks after the key:
/// what precedes it is the key and whitespace, and it starts at the end of
/// the line or at a character that is not whitespace.
#[verifier::rlimit(40)]
pub proof fn law_uses_value_start(s: Seq<char>)
    ensures
        crate::engine::uses_line::spec_value_start(s) matches Some(i) ==> 0 <= i <= s.len() && (i == s.len()
            || !crate::text::is_ws(s[i])) && exists|k: int|
            #![trigger crate::text::occurs_at(s, "uses:"@, k)]
            crate::text::occurs_at(s, "uses:"@, k) && k + 5 <= i && forall|j: int|
                k + 5 <= j < i ==> crate::text::is_ws(#[trigger] s[j]),
{
    let indent = crate::text::lead_ws(s) as int;
    lemma_lead_ws_props(s);
    let trimmed = crate::text::trim_start(s);
    let dash: int = if crate::text::starts_with(trimmed, "- "@) { 2 } else { 0 };
    assert(dash <= trimmed.len()) by {
        reveal_strlit("- ");
    }
    let after_dash = trimmed.skip(dash);
    assert(after_dash =~= s.skip(indent + dash));
    if let Some(rel) = crate::text::first_occurrence(after_dash, "uses:"@) {
        crate::text::lemma_first_occurrence_occurs(after_dash, "uses:"@);
        lemma_key_then_ws(s, indent + dash, rel);
    }
}

// ---------------------------------------------------------------------------
// Planned changes
// ---------------------------------------------------------------------------
/// Each reference of `refs` with `path`.
pub open spec fn paired(
    path: String,
    refs: Seq<crate::scan::types::ReferenceReport>,
) -> Seq<(String, crate::scan::types::ReferenceReport)> {
    refs.map_values(|r: crate::scan::types::ReferenceReport| (path, r))
}

/// Every reference of the workflows with its workflow's path, workflow by
/// workflow in document order.
pub open spec fn flat_pairs(ws: Seq<WorkflowReport>) -> Seq<(String, crate::scan::types::ReferenceReport)>
    decreases ws.len(),
{
    if ws.len() == 0 {
        Seq::empty()
    } else {
        flat_pairs(ws.drop_last()) + paired(ws.last().path, ws.last().references@)
    }
}

pub open spec fn has_plan() -> spec_fn((String, crate::scan::types::ReferenceReport)) -> bool {
    |p: (String, crate::scan::types::ReferenceReport)| p.1.planned is Some
}

proof fn lemma_planned_of_filter(path: String, refs: Seq<crate::scan::types::ReferenceReport>)
    ensures
        crate::scan::types::planned_of(path, refs) == paired(path, refs).filter(has_plan()),
    decreases refs.len(),
{
    reveal(Seq::filter);
    if refs.len() > 0 {
        lemma_planned_of_filter(path, refs.drop_last());
        assert(paired(path, refs).drop_last() =~= paired(path, refs.drop_last()));
        assert(paired(path, refs).last() == (path, refs.last()));
    } else {
        assert(paired(path, refs) =~= Seq::<(String, crate::scan::types::ReferenceReport)>::empty());
    }
}

/// The planned changes of a report are exactly its references that carry a
/// plan, each with its workflow's path, in workflow and then document
/// order.
pub proof fn law_planned_changes_are_the_planned_references(ws: Seq<WorkflowReport>)
    ensures
        crate::scan::types::flat_planned(ws) == flat_pairs(ws).filter(has_plan()),
    decreases ws.len(),
{
    reveal(Seq::filter);
    if ws.len() > 0 {
        law_planned_changes_are_the_planned_references(ws.drop_last());
        lemma_planned_of_filter(ws.last().path, ws.last().references@);
        Seq::filter_distributes_over_add(
            flat_pairs(ws.drop_last()),
            paired(ws.last().path, ws.last().references@),
            has_plan(),
        );
    }
}

/// The interactive view's groups: each holds at least one item and starts
/// expanded, and two neighbouring groups belong to different workflows.
pub proof fn law_groups_by_workflow(ps: Seq<(String, crate::scan::types::ReferenceReport)>, mode: crate::config::PinMode)
    ensures
        forall|g: int|
            0 <= g < crate::tui::selection::groups_of(ps, mode).len() ==> (#[trigger] crate::tui::selection::groups_of(
                ps,
                mode,
            )[g]).items.len() > 0 && !crate::tui::selection::groups_of(ps, mode)[g].collapsed,
        forall|g: int|
            0 <= g < crate::tui::selection::groups_of(ps, mode).len() - 1 ==> (#[trigger] crate::tui::selection::groups_of(
                ps,
                mode,
            )[g]).path != crate::tui::selection::groups_of(ps, mode)[g + 1].path,
    decreases ps.len(),
{
    if ps.len() > 0 {
        law_groups_by_workflow(ps.drop_last(), mode);
        let gs = crate::tui::selection::groups_of(ps.drop_last(), mode);
        let r = crate::tui::selection::groups_of(ps, mode);
        assert forall|g: int| 0 <= g < r.len() implies (#[trigger] r[g]).items.len() > 0 && !r[g].collapsed by {
            if g < gs.len() {
                assert(gs[g].items.len() > 0);
            }
        }
        assert forall|g: int| 0 <= g < r.len() - 1 implies (#[trigger] r[g]).path != r[g + 1].path by {
            if g + 1 < gs.len() {
                assert(gs[g].path != gs[g + 1].path);
            }
        }
    }
}

// ---------------------------------------------------------------------------
// Audit text
// ---------------------------------------------------------------------------
/// Number of line breaks in `s`.
pub open spec fn line_breaks(s: Seq<char>) -> nat {
    s.filter(|c: char| c == '\n').len()
}

/// `s` holds no line break.
pub open spec fn one_line(s: Seq<char>) -> bool {
    forall|i: int| 0 <= i < s.len() ==> s[i] != '\n'
}

proof fn lemma_one_line_breaks(s: Seq<char>)
    requires
        one_line(s),
    ensures
        line_breaks(s) == 0,
    decreases s.len(),
{
    reveal(Seq::filter);
    if s.len() > 0 {
        lemma_one_line_breaks(s.drop_last());
    }
}

proof fn lemma_breaks_add(a: Seq<char>, b: Seq<char>)
    ensures
        line_breaks(a + b) == line_breaks(a) + line_breaks(b),
{
    Seq::filter_distributes_over_add(a, b, |c: char| c == '\n');
}

proof fn lemma_dec_one_line(n: nat)
    ensures
        one_line(crate::render::dec_string(n)),
    decreases n,
{
    if n >= 10 {
        lemma_dec_one_line(n / 10);
    }
}

proof fn lemma_report_line_breaks(f: crate::audit::report::AuditFinding)
    requires
        one_line(f.file@),
        one_line(f.action.repo@),
        one_line(f.action.ref_name@),
    ensures
        line_breaks(crate::audit::report::report_line(f)) == 1,
{
    reveal_strlit(":");
    reveal_strlit(": ");
    reveal_strlit("mutable_ref");
    reveal_strlit("@");
    reveal_strlit("\n");
    lemma_dec_one_line(f.line as nat);
    let body = f.file@ + ":"@ + crate::render::dec_string(f.line as nat) + ": "@ + "mutable_ref"@ + ": "@
        + f.action.repo@ + "@"@ + f.action.ref_name@;
    assert(one_line(body));
    lemma_one_line_breaks(body);
    assert(crate::audit::report::report_line(f) == body + "\n"@);
    lemma_breaks_add(body, "\n"@);
    reveal(Seq::filter);
    assert(line_breaks("\n"@) == 1) by {
        assert("\n"@.drop_last() =~= Seq::<char>::empty());
    }
}

proof fn lemma_report_lines_breaks(fs: Seq<crate::audit::report::AuditFinding>)
    requires
        forall|k: int|
            0 <= k < fs.len() ==> one_line((#[trigger] fs[k]).file@) && one_line(fs[k].action.repo@) && one_line(
                fs[k].action.ref_name@,
            ),
    ensures
        line_breaks(crate::audit::report::report_lines(fs)) == fs.len(),
    decreases fs.len(),
{
    if fs.len() > 0 {
        lemma_report_lines_breaks(fs.drop_last());
        lemma_report_line_breaks(fs.last());
        lemma_breaks_add(crate::audit::report::report_lines(fs.drop_last()), crate::audit::report::report_line(fs.last()));
    } else {
        reveal(Seq::filter);
    }
}

/// The human-readable audit has one line per finding (one line saying
/// there is none when there are none), provided the findings' files and
/// refs hold no line breaks.
pub proof fn law_audit_text_one_line_per_finding(r: crate::audit::report::AuditReport)
    requires
        forall|k: int|
            0 <= k < r.findings@.len() ==> one_line((#[trigger] r.findings@[k]).file@) && one_line(
                r.findings@[k].action.repo@,
            ) && one_line(r.findings@[k].action.ref_name@),
    ensures
        line_breaks(crate::audit::report::human_text(r)) == if r.findings@.len() == 0 {
            1
        } else {
            r.findings@.len()
        },
{
    if r.findings@.len() == 0 {
        reveal_strlit("No audit findings.\n");
        let s = "No audit findings.\n"@;
        assert(s =~= s.drop_last().push('\n'));
        assert(one_line(s.drop_last()));
        lemma_one_line_breaks(s.drop_last());
        lemma_breaks_add(s.drop_last(), seq!['\n']);
        reveal(Seq::filter);
        assert(seq!['\n'].drop_last() =~= Seq::<char>::empty());
        assert(s.drop_last() + seq!['\n'] =~= s);
    } else {
        lemma_report_lines_breaks(r.findings@);
    }
}

// ---------------------------------------------------------------------------
// Counting workflow files
// ---------------------------------------------------------------------------
proof fn lemma_distinct_props(files: Seq<Seq<char>>)
    ensures
        crate::terminal::distinct(files).no_duplicates(),
        forall|x: Seq<char>| #[trigger] crate::terminal::distinct(files).contains(x) <==> files.contains(x),
    decreases files.len(),
{
    if files.len() > 0 {
        let p = files.drop_last();
        lemma_distinct_props(p);
        let d = crate::terminal::distinct(p);
        let r = crate::terminal::distinct(files);
        let last = files.last();
        assert forall|x: Seq<char>| #[trigger] r.contains(x) implies files.contains(x) by {
            let k = choose|k: int| 0 <= k < r.len() && r[k] == x;
            if k < d.len() {
                assert(d[k] == x);
                assert(d.contains(x));
                let j = choose|j: int| 0 <= j < p.len() && p[j] == x;
                assert(files[j] == x);
            } else {
                assert(files[files.len() - 1] == x);
            }
        }
        assert forall|x: Seq<char>| files.contains(x) implies #[trigger] r.contains(x) by {
            let j = choose|j: int| 0 <= j < files.len() && files[j] == x;
            if j < files.len() - 1 {
                assert(p[j] == x);
                assert(p.contains(x));
                assert(d.contains(x));
                let k = choose|k: int| 0 <= k < d.len() && d[k] == x;
                if !d.contains(last) {
                    assert(d.push(last)[k] == x);
                }
            } else {
                if !d.contains(last) {
                    assert(d.push(last)[d.len() as int] == x);
                }
            }
        }
        if !d.contains(last) {
            assert forall|a: int, b: int| 0 <= a < r.len() && 0 <= b < r.len() && a != b implies r[a] != r[b] by {
                if a < d.len() && b < d.len() {
                } else if a < d.len() {
                    assert(d[a] != last);
                } else if b < d.len() {
                    assert(d[b] != last);
                }
            }
        }
    }
}

/// The number of workflow files among updates is the number of distinct
/// files: order and repeats do not change it; it is at least one when
/// there are updates, and at most their number.
pub proof fn law_update_file_count(files: Seq<Seq<char>>)
    ensures
        crate::terminal::distinct(files).len() == files.to_set().len(),
        files.len() > 0 ==> crate::terminal::distinct(files).len() >= 1,
        crate::terminal::distinct(files).len() <= files.len(),
{
    lemma_distinct_props(files);
    crate::terminal::lemma_distinct_len(files);
    let d = crate::terminal::distinct(files);
    d.unique_seq_to_set();
    assert(d.to_set() =~= files.to_set());
    if files.len() > 0 {
        assert(files.contains(files[0]));
        assert(d.contains(files[0]));
    }
}

// ---------------------------------------------------------------------------
// Shortened labels on ASCII text
// ---------------------------------------------------------------------------
/// Every character of `s` is ASCII.
pub open spec fn ascii(s: Seq<char>) -> bool {
    forall|i: int| 0 <= i < s.len() ==> (#[trigger] s[i] as u32) <= 0x7f
}

proof fn lemma_ascii_blen(s: Seq<char>, n: int)
    requires
        ascii(s),
        0 <= n <= s.len(),
    ensures
        crate::text::blen(s.take(n)) == n,
    decreases n,
{
    if n > 0 {
        lemma_ascii_blen(s, n - 1);
        crate::text::lemma_blen_step(s, n - 1);
        assert((s[n - 1] as u32) <= 0x7f);
    } else {
        assert(s.take(0) =~= Seq::<char>::empty());
        reveal_with_fuel(vstd::utf8::encode_utf8, 1);
    }
}

proof fn lemma_ascii_cut(s: Seq<char>, m: int)
    requires
        ascii(s),
        0 <= m <= s.len(),
    ensures
        crate::text::chars_at_byte(s, m) == m,
        crate::text::char_boundary(s, m),
{
    lemma_ascii_blen(s, m);
    crate::text::lemma_chars_at_byte(s, m);
}

/// On ASCII text the short form of a commit is its first twelve
/// characters (all of it when shorter), and shortening it again changes
/// nothing.
pub proof fn law_short_sha_ascii(sha: Seq<char>)
    requires
        ascii(sha),
    ensures
        crate::terminal::spec_short_sha(sha) == sha.take(if sha.len() < 12 { sha.len() as int } else { 12 }),
        crate::terminal::spec_short_sha(crate::terminal::spec_short_sha(sha)) == crate::terminal::spec_short_sha(sha),
{
    lemma_ascii_blen(sha, sha.len() as int);
    assert(sha.take(sha.len() as int) =~= sha);
    let m: int = if sha.len() < 12 { sha.len() as int } else { 12 };
    lemma_ascii_cut(sha, m);
    let r = sha.take(m);
    assert(ascii(r));
    lemma_ascii_blen(r, r.len() as int);
    assert(r.take(r.len() as int) =~= r);
    lemma_ascii_cut(r, r.len() as int);
    assert(r.take(r.len() as int) =~= r);
}

proof fn lemma_cut_with_mark(label: Seq<char>, k: int, mark: Seq<char>, at: int, r: Seq<char>)
    requires
        ascii(label),
        0 <= k <= label.len(),
        0 <= at < mark.len(),
        mark[at] == '\u{2026}',
        r == label.take(k) + mark,
    ensures
        r.len() == k + mark.len(),
        r != label,
{
    let q = k + at;
    assert(r[q] == mark[at]);
    assert(('\u{2026}' as u32) > 0x7f);
    if r == label {
        assert((label[q] as u32) <= 0x7f);
    }
}

/// On an ASCII label and a width of at least one, a shortened label takes
/// at most `max` characters, and the label comes back unchanged exactly
/// when it fits.
#[verifier::rlimit(80)]
pub proof fn law_truncate_label_ascii(label: Seq<char>, max: int)
    requires
        ascii(label),
        max >= 1,
    ensures
        crate::scan::display::spec_truncate_label(label, max).len() <= max,
        (crate::scan::display::spec_truncate_label(label, max) == label) <==> label.len() <= max,
{
    lemma_ascii_blen(label, label.len() as int);
    assert(label.take(label.len() as int) =~= label);
    let r = crate::scan::display::spec_truncate_label(label, max);
    if label.len() <= max {
    } else if crate::scan::display::keeps_version(label, max) {
        let p = crate::text::first_occurrence(label, " ("@)->0;
        crate::text::lemma_first_occurrence_occurs(label, " ("@);
        lemma_ascii_blen(label, p);
        reveal_strlit(" (\u{2026})");
        lemma_cut_with_mark(label, p, " (\u{2026})"@, 2, r);
    } else {
        let m = crate::scan::display::sat_sub(max, 1);
        lemma_ascii_cut(label, m);
        reveal_strlit("\u{2026}");
        lemma_cut_with_mark(label, m, "\u{2026}"@, 0, r);
    }
}

/// The items of the groups, group after group.
pub open spec fn all_items(gs: Seq<GroupView>) -> Seq<crate::tui::selection::ItemView>
    decreases gs.len(),
{
    if gs.len() == 0 {
        Seq::empty()
    } else {
        all_items(gs.drop_last()) + gs.last().items
    }
}

/// The interactive view's items, group after group, are the planned
/// changes in order, each unselected, with its line (0 when unknown) and
/// its written reference.
pub proof fn law_groups_hold_the_planned_changes(
    ps: Seq<(String, crate::scan::types::ReferenceReport)>,
    mode: crate::config::PinMode,
)
    ensures
        all_items(crate::tui::selection::groups_of(ps, mode)) == ps.map_values(
            |p: (String, crate::scan::types::ReferenceReport)| crate::tui::selection::item_of(p.1, mode),
        ),
        forall|k: int|
            0 <= k < all_items(crate::tui::selection::groups_of(ps, mode)).len() ==> !(#[trigger] all_items(
                crate::tui::selection::groups_of(ps, mode),
            )[k]).selected,
    decreases ps.len(),
{
    let f = |p: (String, crate::scan::types::ReferenceReport)| crate::tui::selection::item_of(p.1, mode);
    if ps.len() > 0 {
        law_groups_hold_the_planned_changes(ps.drop_last(), mode);
        let gs = crate::tui::selection::groups_of(ps.drop_last(), mode);
        let r = crate::tui::selection::groups_of(ps, mode);
        let item = crate::tui::selection::item_of(ps.last().1, mode);
        if gs.len() > 0 && gs.last().path == ps.last().0@ {
            assert(r.drop_last() =~= gs.drop_last());
            assert(all_items(r) =~= all_items(gs).push(item));
        } else {
            assert(r.drop_last() =~= gs);
            assert(all_items(r) =~= all_items(gs).push(item));
        }
        assert(ps.map_values(f) =~= ps.drop_last().map_values(f).push(item));
    } else {
        assert(ps.map_values(f) =~= Seq::<crate::tui::selection::ItemView>::empty());
    }
}

// ---------------------------------------------------------------------------
// Applying: every target in one file's group
// ---------------------------------------------------------------------------
/// How many targets the groups of `files` hold together.
pub open spec fn group_total(ts: Seq<crate::scan::types::ApplyTarget>, files: Seq<Seq<char>>) -> nat
    decreases files.len(),
{
    if files.len() == 0 {
        0
    } else {
        group_total(ts, files.drop_last()) + crate::scan::apply::targets_in_file(ts, files.last()).len()
    }
}

/// How many of `files` name the path `x`.
pub open spec fn same_count(files: Seq<Seq<char>>, x: Seq<char>) -> nat
    decreases files.len(),
{
    if files.len() == 0 {
        0
    } else {
        same_count(files.drop_last(), x) + if crate::discovery::path_eq(x, files.last()) {
            1nat
        } else {
            0nat
        }
    }
}

proof fn lemma_group_total_step(ts: Seq<crate::scan::types::ApplyTarget>, files: Seq<Seq<char>>)
    requires
        ts.len() > 0,
    ensures
        group_total(ts, files) == group_total(ts.drop_last(), files) + same_count(files, ts.last().workflow_path@),
    decreases files.len(),
{
    if files.len() > 0 {
        lemma_group_total_step(ts, files.drop_last());
    }
}

proof fn lemma_same_count_none(files: Seq<Seq<char>>, x: Seq<char>)
    requires
        forall|k: int| 0 <= k < files.len() ==> !crate::discovery::path_eq(x, #[trigger] files[k]),
    ensures
        same_count(files, x) == 0,
    decreases files.len(),
{
    if files.len() > 0 {
        assert(!crate::discovery::path_eq(x, files[files.len() - 1]));
        lemma_same_count_none(files.drop_last(), x);
    }
}

proof fn lemma_same_count_one(files: Seq<Seq<char>>, x: Seq<char>)
    requires
        forall|i: int, j: int|
            0 <= i < j < files.len() ==> !crate::discovery::path_eq(#[trigger] files[i], #[trigger] files[j]),
        crate::discovery::holds_path(files, x),
    ensures
        same_count(files, x) == 1,
    decreases files.len(),
{
    let last = files.len() - 1;
    let p = files.drop_last();
    if crate::discovery::path_eq(x, files[last]) {
        assert forall|k: int| 0 <= k < p.len() implies !crate::discovery::path_eq(x, #[trigger] p[k]) by {
            assert(p[k] == files[k]);
            assert(!crate::discovery::path_eq(files[k], files[last]));
        }
        lemma_same_count_none(p, x);
    } else {
        let i = choose|i: int| 0 <= i < files.len() && crate::discovery::path_eq(#[trigger] files[i], x);
        assert(i != last);
        assert(p[i] == files[i]);
        assert(crate::discovery::holds_path(p, x));
        assert forall|a: int, b: int| 0 <= a < b < p.len() implies !crate::discovery::path_eq(#[trigger] p[a], #[trigger] p[b]) by {
            assert(p[a] == files[a] && p[b] == files[b]);
        }
        lemma_same_count_one(p, x);
    }
}

proof fn lemma_group_total(ts: Seq<crate::scan::types::ApplyTarget>, files: Seq<Seq<char>>)
    requires
        forall|i: int, j: int|
            0 <= i < j < files.len() ==> !crate::discovery::path_eq(#[trigger] files[i], #[trigger] files[j]),
        forall|k: int| 0 <= k < ts.len() ==> crate::discovery::holds_path(files, (#[trigger] ts[k]).workflow_path@),
    ensures
        group_total(ts, files) == ts.len(),
    decreases ts.len(),
{
    if ts.len() > 0 {
        assert forall|k: int| 0 <= k < ts.drop_last().len() implies crate::discovery::holds_path(
            files,
            (#[trigger] ts.drop_last()[k]).workflow_path@,
        ) by {
            assert(ts.drop_last()[k] == ts[k]);
        }
        lemma_group_total(ts.drop_last(), files);
        lemma_group_total_step(ts, files);
        assert(crate::discovery::holds_path(files, ts[ts.len() - 1].workflow_path@));
        lemma_same_count_one(files, ts.last().workflow_path@);
    } else {
        assert(ts =~= Seq::<crate::scan::types::ApplyTarget>::empty());
        lemma_group_total_zero(files);
    }
}

proof fn lemma_group_total_zero(files: Seq<Seq<char>>)
    ensures
        group_total(Seq::empty(), files) == 0,
    decreases files.len(),
{
    if files.len() > 0 {
        lemma_group_total_zero(files.drop_last());
    }
}

/// Grouping apply targets by file puts each target in exactly one group:
/// the groups' targets add up to all the targets. (Each group's changes
/// and failures add up to its targets by `file_step` and `file_outcome`.)
pub proof fn law_apply_groups_partition_targets(ts: Seq<crate::scan::types::ApplyTarget>)
    ensures
        group_total(
            ts,
            crate::discovery::insert_paths(
                Seq::empty(),
                crate::discovery::views(crate::scan::apply::target_paths(ts)),
                true,
            ),
        ) == ts.len(),
{
    let ps = crate::discovery::views(crate::scan::apply::target_paths(ts));
    let files = crate::discovery::insert_paths(Seq::empty(), ps, true);
    crate::discovery::lemma_insert_paths_strict(Seq::empty(), ps);
    crate::discovery::lemma_insert_paths_keeps(Seq::empty(), ps, true);
    assert forall|i: int, j: int| 0 <= i < j < files.len() implies !crate::discovery::path_eq(
        #[trigger] files[i],
        #[trigger] files[j],
    ) by {
        assert(crate::discovery::path_lt(files[i], files[j]));
        crate::discovery::lemma_path_order(files[i], files[j], files[j]);
    }
    assert forall|k: int| 0 <= k < ts.len() implies crate::discovery::holds_path(files, (#[trigger] ts[k]).workflow_path@) by {
        assert(ps[k] == ts[k].workflow_path@);
    }
    lemma_group_total(ts, files);
}

/// In bytes, the value of a `uses:` line starts at a character boundary:
/// the line's bytes up to that offset are exactly the encoding of the
/// characters before the value (so the character law above holds of the
/// byte offset that `uses_value_start` returns).
pub proof fn law_uses_value_start_bytes(s: Seq<char>)
    ensures
        crate::engine::uses_line::spec_value_start(s) matches Some(i) ==> ({
            let b = vstd::utf8::encode_utf8(s.take(i)).len();
            &&& b <= vstd::utf8::encode_utf8(s).len()
            &&& vstd::utf8::encode_utf8(s).take(b as int) == vstd::utf8::encode_utf8(s.take(i))
        }),
{
    law_uses_value_start(s);
    if let Some(i) = crate::engine::uses_line::spec_value_start(s) {
        assert(s =~= s.take(i) + s.skip(i));
        crate::text::lemma_encode_utf8_append(s.take(i), s.skip(i));
        let b = vstd::utf8::encode_utf8(s.take(i)).len();
        assert(vstd::utf8::encode_utf8(s).take(b as int) =~= vstd::utf8::encode_utf8(s.take(i)));
    }
}

} // verus!
