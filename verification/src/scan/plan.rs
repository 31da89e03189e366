//! Update planning from GitHub releases and the configuration.
//!
//! Planning may need the commit of a release tag. The planner is a function
//! from what is known so far (the tags resolved already) to its next step:
//! either a tag to resolve, after which it is asked again with the answer,
//! or the finished plan. Each step asks only for a tag it has no answer for,
//! so the caller's loop ends.
use vstd::prelude::*;

use crate::clock::{INSTANT_BOUND, now_nanos};
use crate::config::{ActioneerConfig, PinMode, RelativeDuration, update_level_label};
use crate::engine::{PinKind, ReferenceKind, opt_view};
use crate::github::Release;
use crate::text::{chars_of, find_first, str_eq};

use super::audit::{IssueView, blocks_update, spec_blocks, views};
use super::pin::{
    BaselineView, SemVer, SemVerView, VersionBaseline, age_in_range, compare_semver,
    config_age_ok, latest_on_major, meets_min_age, on_major, parse_semver_tag,
    release_meets_min_age, release_version, select_release, spec_latest_on_major,
    spec_select_release, spec_semver_tag, spec_version_baseline, spec_written_version_tag,
    sv_order, target_text, version_baseline, would_change, written_version_tag,
};
use super::types::{AuditIssue, PlanReason, PlannedChange, ResolvedReference};

verus! {

/// A tag of the reference's repository resolved earlier: its commit, or none
/// when the resolution failed.
#[derive(Debug, Clone, PartialEq, Eq)]
pub struct TagLookup {
    pub tag: String,
    pub sha: Option<String>,
}

/// The planner's next step.
#[derive(Debug, Clone, PartialEq, Eq)]
pub enum PlanStep {
    /// Resolve this tag of the reference's repository, then plan again with the answer.
    Resolve(String),
    /// Planning is finished: the proposed change, if any.
    Done(Option<PlannedChange>),
}

/// A planner step as values: a tag to resolve, no plan, or a plan to the
/// release `tag` at commit `sha`.
pub ghost enum StepView {
    Resolve(Seq<char>),
    NoPlan,
    Plan { tag: Seq<char>, sha: Seq<char>, from_version: Option<Seq<char>> },
}

/// What is known of `tag`: not asked yet (`None`), failed (`Some(None)`), or its commit.
pub open spec fn lookup(known: Seq<TagLookup>, tag: Seq<char>) -> Option<Option<Seq<char>>> {
    match find_first(known, |k: TagLookup| k.tag@ == tag) {
        Some(i) => Some(opt_view(known[i].sha)),
        None => None,
    }
}

/// The pin and comment that a plan to `tag` at `sha` writes.
pub open spec fn plan_pin(tag: Seq<char>, sha: Seq<char>, mode: PinMode) -> (Seq<char>, Option<Seq<char>>) {
    match mode {
        PinMode::Sha => (sha, Some(tag)),
        PinMode::Tag => (tag, None),
    }
}

/// A plan to the release `tag`: ask for its commit when unknown; no plan when
/// it failed or when the written line would not change.
pub open spec fn plan_for(
    r: ResolvedReference,
    tag: Seq<char>,
    from_version: Option<Seq<char>>,
    c: ActioneerConfig,
    known: Seq<TagLookup>,
) -> StepView {
    match lookup(known, tag) {
        None => StepView::Resolve(tag),
        Some(None) => StepView::NoPlan,
        Some(Some(sha)) => {
            let (to_ref, to_comment) = plan_pin(tag, sha, c.pin);
            if target_text(r.located.reference, to_ref, to_comment, c.pin)
                != r.located.reference.raw@ {
                StepView::Plan { tag, sha, from_version }
            } else {
                StepView::NoPlan
            }
        },
    }
}

/// The fields of a plan to `tag` at `sha`.
pub open spec fn plan_fields(
    p: PlannedChange,
    r: ResolvedReference,
    tag: Seq<char>,
    sha: Seq<char>,
    from_version: Option<Seq<char>>,
    c: ActioneerConfig,
) -> bool {
    let reference = r.located.reference;
    let (to_ref, to_comment) = plan_pin(tag, sha, c.pin);
    &&& p.from_ref@ == match reference.git_ref {
        Some(g) => g@,
        None => reference.raw@,
    }
    &&& p.to_ref@ == to_ref
    &&& opt_view(p.to_comment) == to_comment
    &&& opt_view(p.from_version) == from_version
    &&& p.to_sha@ == sha
    &&& p.reason matches PlanReason::SemverBump { level } && level@ == update_level_label(c.update)
}

pub open spec fn step_matches(r: PlanStep, s: StepView, res: ResolvedReference, c: ActioneerConfig) -> bool {
    match s {
        StepView::Resolve(t) => r matches PlanStep::Resolve(x) && x@ == t,
        StepView::NoPlan => r == PlanStep::Done(None),
        StepView::Plan { tag, sha, from_version } => r matches PlanStep::Done(Some(p)) && plan_fields(
            p,
            res,
            tag,
            sha,
            from_version,
            c,
        ),
    }
}

// ---------------------------------------------------------------------------
// Releases on a major line, newest first
// ---------------------------------------------------------------------------
/// The releases of `rs` on major line `major`, in order.
pub open spec fn on_line(rs: Seq<Release>, major: u64) -> Seq<Release>
    decreases rs.len(),
{
    if rs.len() == 0 {
        Seq::empty()
    } else if on_major(rs.last(), major) {
        on_line(rs.drop_last(), major).push(rs.last())
    } else {
        on_line(rs.drop_last(), major)
    }
}

/// `x` put into `s` before the first release with a lower version.
pub open spec fn insert_desc(s: Seq<Release>, x: Release) -> Seq<Release>
    decreases s.len(),
{
    if s.len() == 0 {
        seq![x]
    } else if sv_order(release_version(s[0]), release_version(x)) < 0 {
        seq![x] + s
    } else {
        seq![s[0]] + insert_desc(s.drop_first(), x)
    }
}

/// `s` sorted from highest to lowest version, keeping the order of equal versions.
pub open spec fn sort_desc(s: Seq<Release>) -> Seq<Release>
    decreases s.len(),
{
    if s.len() == 0 {
        Seq::empty()
    } else {
        insert_desc(sort_desc(s.drop_last()), s.last())
    }
}

proof fn lemma_insert_desc(s: Seq<Release>, x: Release, j: int)
    requires
        0 <= j <= s.len(),
        forall|k: int| 0 <= k < j ==> sv_order(release_version(#[trigger] s[k]), release_version(x)) >= 0,
        j < s.len() ==> sv_order(release_version(s[j]), release_version(x)) < 0,
    ensures
        insert_desc(s, x) == s.take(j) + seq![x] + s.skip(j),
    decreases s.len(),
{
    if s.len() == 0 {
        assert(s.take(j) + seq![x] + s.skip(j) =~= seq![x]);
    } else if j == 0 {
        assert(s.take(0) + seq![x] + s.skip(0) =~= seq![x] + s);
    } else {
        assert(sv_order(release_version(s[0]), release_version(x)) >= 0);
        let t = s.drop_first();
        assert forall|k: int| 0 <= k < j - 1 implies sv_order(
            release_version(#[trigger] t[k]),
            release_version(x),
        ) >= 0 by {
            assert(t[k] == s[k + 1]);
        }
        lemma_insert_desc(t, x, j - 1);
        assert(seq![s[0]] + (t.take(j - 1) + seq![x] + t.skip(j - 1)) =~= s.take(j) + seq![x] + s.skip(
            j,
        ));
    }
}

fn releases_on_line(releases: &[Release], major: u64) -> (r: Vec<Release>)
    ensures
        r@ == on_line(releases@, major),
{
    let mut out: Vec<Release> = Vec::new();
    let mut i: usize = 0;
    while i < releases.len()
        invariant
            0 <= i <= releases.len(),
            out@ == on_line(releases@.take(i as int), major),
        decreases releases.len() - i,
    {
        let rel = &releases[i];
        proof {
            assert(releases@.take(i as int + 1).drop_last() == releases@.take(i as int));
            assert(releases@.take(i as int + 1).last() == *rel);
        }
        if !rel.prerelease {
            if let Some(v) = parse_semver_tag(rel.tag_name.as_str()) {
                if v.major == major {
                    out.push(rel.duplicate());
                }
            }
        }
        i += 1;
    }
    proof {
        assert(releases@.take(releases@.len() as int) == releases@);
    }
    out
}

fn version_of(rel: &Release) -> (r: SemVer)
    requires
        spec_semver_tag(rel.tag_name@) is Some,
    ensures
        r@ == release_version(*rel),
{
    match parse_semver_tag(rel.tag_name.as_str()) {
        Some(v) => v,
        None => {
            assert(false);
            SemVer { major: 0, minor: 0, patch: 0, build: String::new() }
        },
    }
}

pub open spec fn all_semver(s: Seq<Release>) -> bool {
    forall|k: int| 0 <= k < s.len() ==> spec_semver_tag((#[trigger] s[k]).tag_name@) is Some
}

proof fn lemma_on_line_semver(rs: Seq<Release>, major: u64)
    ensures
        all_semver(on_line(rs, major)),
    decreases rs.len(),
{
    if rs.len() > 0 {
        lemma_on_line_semver(rs.drop_last(), major);
    }
}

proof fn lemma_insert_semver(s: Seq<Release>, x: Release)
    requires
        all_semver(s),
        spec_semver_tag(x.tag_name@) is Some,
    ensures
        all_semver(insert_desc(s, x)),
        insert_desc(s, x).len() == s.len() + 1,
    decreases s.len(),
{
    if s.len() > 0 && sv_order(release_version(s[0]), release_version(x)) >= 0 {
        let t = s.drop_first();
        assert forall|k: int| 0 <= k < t.len() implies spec_semver_tag(
            (#[trigger] t[k]).tag_name@,
        ) is Some by {
            assert(t[k] == s[k + 1]);
        }
        lemma_insert_semver(t, x);
        let r = seq![s[0]] + insert_desc(t, x);
        assert forall|k: int| 0 <= k < r.len() implies spec_semver_tag(
            (#[trigger] r[k]).tag_name@,
        ) is Some by {
            if k > 0 {
                assert(r[k] == insert_desc(t, x)[k - 1]);
            }
        }
    } else if s.len() > 0 {
        let r = seq![x] + s;
        assert forall|k: int| 0 <= k < r.len() implies spec_semver_tag(
            (#[trigger] r[k]).tag_name@,
        ) is Some by {
            if k > 0 {
                assert(r[k] == s[k - 1]);
            }
        }
    }
}

/// The releases of `releases` on line `major`, newest first (a stable sort).
fn newest_first(releases: &[Release], major: u64) -> (r: Vec<Release>)
    ensures
        r@ == sort_desc(on_line(releases@, major)),
        all_semver(r@),
{
    let line = releases_on_line(releases, major);
    proof {
        lemma_on_line_semver(releases@, major);
    }
    let mut out: Vec<Release> = Vec::new();
    let mut i: usize = 0;
    while i < line.len()
        invariant
            0 <= i <= line.len(),
            all_semver(line@),
            out@ == sort_desc(line@.take(i as int)),
            all_semver(out@),
        decreases line.len() - i,
    {
        let x = &line[i];
        proof {
            assert(line@.take(i as int + 1).drop_last() == line@.take(i as int));
            assert(line@.take(i as int + 1).last() == *x);
            assert(spec_semver_tag(line@[i as int].tag_name@) is Some);
        }
        let xv = version_of(x);
        let mut j: usize = 0;
        let mut stop = false;
        while !stop && j < out.len()
            invariant
                0 <= j <= out.len(),
                all_semver(out@),
                xv@ == release_version(*x),
                forall|k: int|
                    0 <= k < j ==> sv_order(release_version(#[trigger] out@[k]), release_version(*x))
                        >= 0,
                stop ==> j < out.len() && sv_order(release_version(out@[j as int]), release_version(*x))
                    < 0,
            decreases out.len() - j + if stop { 0int } else { 1int },
        {
            let ov = version_of(&out[j]);
            if compare_semver(&ov, &xv) < 0 {
                stop = true;
            } else {
                j += 1;
            }
        }
        proof {
            lemma_insert_desc(out@, *x, j as int);
            lemma_insert_semver(out@, *x);
        }
        out.insert(j, x.duplicate());
        i += 1;
    }
    proof {
        assert(line@.take(line@.len() as int) == line@);
    }
    out
}

// ---------------------------------------------------------------------------
// Inferring the version of a floating major tag
// ---------------------------------------------------------------------------
/// Walking `order` from index `k` for the release whose commit is `sha`:
/// a tag to resolve first, the version found, or none.
pub ghost enum WalkView {
    Need(Seq<char>),
    Found(SemVerView),
    NotFound,
}

pub open spec fn walk_from(order: Seq<Release>, sha: Seq<char>, known: Seq<TagLookup>, k: int) -> WalkView
    decreases order.len() - k,
{
    if k < 0 || k >= order.len() {
        WalkView::NotFound
    } else {
        match lookup(known, order[k].tag_name@) {
            None => WalkView::Need(order[k].tag_name@),
            Some(Some(s)) if s == sha => WalkView::Found(release_version(order[k])),
            _ => walk_from(order, sha, known, k + 1),
        }
    }
}

/// The commit of `tag` as far as it is known.
pub fn find_lookup<'a>(known: &'a [TagLookup], tag: &str) -> (r: Option<&'a Option<String>>)
    ensures
        match lookup(known@, tag@) {
            None => r is None,
            Some(s) => r matches Some(x) && opt_view(*x) == s,
        },
{
    let mut i: usize = 0;
    while i < known.len()
        invariant
            0 <= i <= known.len(),
            find_first(known@, |k: TagLookup| k.tag@ == tag@) == crate::text::find_from(
                known@,
                |k: TagLookup| k.tag@ == tag@,
                i as int,
            ),
        decreases known.len() - i,
    {
        if str_eq(known[i].tag.as_str(), tag) {
            return Some(&known[i].sha);
        }
        i += 1;
    }
    None
}

enum Walk {
    Need(String),
    Found(SemVer),
    NotFound,
}

fn infer_version_on_major(sha: &str, order: &Vec<Release>, known: &[TagLookup]) -> (r: Walk)
    requires
        all_semver(order@),
    ensures
        match walk_from(order@, sha@, known@, 0) {
            WalkView::Need(t) => r matches Walk::Need(x) && x@ == t,
            WalkView::Found(v) => r matches Walk::Found(x) && x@ == v,
            WalkView::NotFound => r is NotFound,
        },
{
    let mut k: usize = 0;
    while k < order.len()
        invariant
            0 <= k <= order.len(),
            all_semver(order@),
            walk_from(order@, sha@, known@, 0) == walk_from(order@, sha@, known@, k as int),
        decreases order.len() - k,
    {
        let rel = &order[k];
        match find_lookup(known, rel.tag_name.as_str()) {
            None => return Walk::Need(rel.tag_name.clone()),
            Some(Some(s)) => {
                if str_eq(s.as_str(), sha) {
                    proof {
                        assert(spec_semver_tag(order@[k as int].tag_name@) is Some);
                    }
                    return Walk::Found(version_of(rel));
                }
            },
            Some(None) => {},
        }
        k += 1;
    }
    Walk::NotFound
}

// ---------------------------------------------------------------------------
// Proposals
// ---------------------------------------------------------------------------
/// The comment of the first SHA/comment mismatch among the findings.
pub open spec fn first_mismatch(issues: Seq<IssueView>) -> Option<Seq<char>> {
    match find_first(issues, |i: IssueView| i is ShaCommentMismatch) {
        Some(k) => Some(issues[k]->ShaCommentMismatch_comment),
        None => None,
    }
}

/// A release that remediates a SHA/comment mismatch: the comment's own
/// release, published and old enough.
pub open spec fn remediates(comment: Seq<char>, min_age: Option<RelativeDuration>, now: int) -> spec_fn(
    Release,
) -> bool {
    |r: Release| r.tag_name@ == comment && !r.prerelease && meets_min_age(r.published_at@, min_age, now)
}

/// The plan for a floating major tag: the newest release on the line (when
/// old enough), directly when the pin already points at its commit; else the
/// best release above the version that the pinned commit is found to carry.
pub open spec fn major_only_step(
    r: ResolvedReference,
    releases: Seq<Release>,
    c: ActioneerConfig,
    known: Seq<TagLookup>,
    now: int,
    major: u64,
    from_version: Option<Seq<char>>,
) -> StepView {
    match spec_latest_on_major(releases, major) {
        None => StepView::NoPlan,
        Some(i) => {
            let latest = releases[i];
            if !meets_min_age(latest.published_at@, c.min_release_age, now) {
                StepView::NoPlan
            } else {
                match lookup(known, latest.tag_name@) {
                    None => StepView::Resolve(latest.tag_name@),
                    Some(None) => StepView::NoPlan,
                    Some(Some(sha)) => if r.current.sha@ == sha {
                        plan_for(r, latest.tag_name@, from_version, c, known)
                    } else {
                        let order = sort_desc(on_line(releases, major));
                        match walk_from(order, r.current.sha@, known, 0) {
                            WalkView::Need(t) => StepView::Resolve(t),
                            w => {
                                let cur = match w {
                                    WalkView::Found(v) => v,
                                    _ => SemVerView { major, minor: 0, patch: 0, build: Seq::empty() },
                                };
                                let line = on_line(releases, major);
                                match spec_select_release(line, cur, c.update, c.min_release_age, now) {
                                    None => StepView::NoPlan,
                                    Some(j) => plan_for(r, line[j].tag_name@, from_version, c, known),
                                }
                            },
                        }
                    },
                }
            }
        },
    }
}

/// The planner's step for one reference at time `now`.
pub open spec fn spec_propose(
    r: ResolvedReference,
    releases: Seq<Release>,
    c: ActioneerConfig,
    issues: Seq<IssueView>,
    known: Seq<TagLookup>,
    now: int,
) -> StepView {
    let reference = r.located.reference;
    if reference.kind != ReferenceKind::Action || (exists|k: int|
        0 <= k < issues.len() && spec_blocks(#[trigger] issues[k])) {
        StepView::NoPlan
    } else if reference.pin_kind == PinKind::Branch && c.skip_branches {
        StepView::NoPlan
    } else if r.current.sha@.len() == 0 {
        StepView::NoPlan
    } else {
        match first_mismatch(issues) {
            Some(comment) => match find_first(releases, remediates(comment, c.min_release_age, now)) {
                None => StepView::NoPlan,
                Some(_) => plan_for(r, comment, Some(comment), c, known),
            },
            None => {
                let from_version = spec_written_version_tag(reference);
                match spec_version_baseline(reference) {
                    BaselineView::MajorOnly(major) => major_only_step(
                        r,
                        releases,
                        c,
                        known,
                        now,
                        major,
                        from_version,
                    ),
                    BaselineView::Exact(v) => match spec_select_release(
                        releases,
                        v,
                        c.update,
                        c.min_release_age,
                        now,
                    ) {
                        None => StepView::NoPlan,
                        Some(i) => if Some(releases[i].tag_name@) == from_version {
                            StepView::NoPlan
                        } else {
                            plan_for(r, releases[i].tag_name@, from_version, c, known)
                        },
                    },
                    BaselineView::Unknown => StepView::NoPlan,
                }
            },
        }
    }
}

fn build_plan(
    resolved: &ResolvedReference,
    tag: &str,
    from_version: Option<String>,
    config: &ActioneerConfig,
    known: &[TagLookup],
) -> (r: PlanStep)
    ensures
        step_matches(r, plan_for(*resolved, tag@, opt_view(from_version), *config, known@), *resolved, *config),
{
    let sha = match find_lookup(known, tag) {
        None => return PlanStep::Resolve(tag.to_string()),
        Some(None) => return PlanStep::Done(None),
        Some(Some(s)) => s,
    };
    let reference = &resolved.located.reference;
    let (to_ref, to_comment) = match config.pin {
        PinMode::Sha => (sha.clone(), Some(tag.to_string())),
        PinMode::Tag => (tag.to_string(), None),
    };
    let from_ref = match &reference.git_ref {
        Some(g) => g.clone(),
        None => reference.raw.clone(),
    };
    let planned = PlannedChange {
        from_ref,
        to_ref,
        from_version,
        to_sha: sha.clone(),
        to_comment,
        reason: PlanReason::SemverBump { level: config.update.as_str().to_string() },
    };
    if !would_change(reference, &planned, config) {
        return PlanStep::Done(None);
    }
    PlanStep::Done(Some(planned))
}

fn first_mismatch_comment(issues: &[AuditIssue]) -> (r: Option<&String>)
    ensures
        match first_mismatch(views(issues@)) {
            Some(c) => r matches Some(x) && x@ == c,
            None => r is None,
        },
{
    let ghost vs = views(issues@);
    let mut k: usize = 0;
    while k < issues.len()
        invariant
            0 <= k <= issues.len(),
            vs == views(issues@),
            find_first(vs, |i: IssueView| i is ShaCommentMismatch) == crate::text::find_from(
                vs,
                |i: IssueView| i is ShaCommentMismatch,
                k as int,
            ),
        decreases issues.len() - k,
    {
        proof {
            assert(vs[k as int] == issues@[k as int]@);
        }
        match &issues[k] {
            AuditIssue::ShaCommentMismatch { comment, .. } => {
                return Some(comment);
            },
            _ => {},
        }
        k += 1;
    }
    None
}

fn find_remediation(releases: &[Release], comment: &str, min_age: Option<RelativeDuration>, now: i128) -> (r:
    bool)
    requires
        min_age matches Some(d) ==> age_in_range(d),
        -INSTANT_BOUND <= now <= INSTANT_BOUND,
    ensures
        r == find_first(releases@, remediates(comment@, min_age, now as int)) is Some,
{
    let mut k: usize = 0;
    while k < releases.len()
        invariant
            0 <= k <= releases.len(),
            min_age matches Some(d) ==> age_in_range(d),
            -INSTANT_BOUND <= now <= INSTANT_BOUND,
            find_first(releases@, remediates(comment@, min_age, now as int)) == crate::text::find_from(
                releases@,
                remediates(comment@, min_age, now as int),
                k as int,
            ),
        decreases releases.len() - k,
    {
        let rel = &releases[k];
        if str_eq(rel.tag_name.as_str(), comment) && !rel.prerelease && release_meets_min_age(
            rel,
            min_age,
            now,
        ) {
            return true;
        }
        k += 1;
    }
    false
}

fn propose_major_only(
    resolved: &ResolvedReference,
    releases: &[Release],
    config: &ActioneerConfig,
    known: &[TagLookup],
    now: i128,
    major: u64,
    from_version: Option<String>,
) -> (r: PlanStep)
    requires
        config_age_ok(*config),
        -INSTANT_BOUND <= now <= INSTANT_BOUND,
    ensures
        step_matches(
            r,
            major_only_step(*resolved, releases@, *config, known@, now as int, major, opt_view(from_version)),
            *resolved,
            *config,
        ),
{
    let latest = match latest_on_major(releases, major) {
        Some(l) => l,
        None => return PlanStep::Done(None),
    };
    if !release_meets_min_age(latest, config.min_release_age, now) {
        return PlanStep::Done(None);
    }
    let latest_sha = match find_lookup(known, latest.tag_name.as_str()) {
        None => return PlanStep::Resolve(latest.tag_name.clone()),
        Some(None) => return PlanStep::Done(None),
        Some(Some(s)) => s,
    };
    if str_eq(resolved.current.sha.as_str(), latest_sha.as_str()) {
        return build_plan(resolved, latest.tag_name.as_str(), from_version, config, known);
    }
    let order = newest_first(releases, major);
    let current = match infer_version_on_major(resolved.current.sha.as_str(), &order, known) {
        Walk::Need(t) => return PlanStep::Resolve(t),
        Walk::Found(v) => v,
        Walk::NotFound => SemVer { major, minor: 0, patch: 0, build: String::new() },
    };
    let line = releases_on_line(releases, major);
    match select_release(&line, &current, config.update, config.min_release_age, now) {
        None => PlanStep::Done(None),
        Some(rel) => build_plan(resolved, rel.tag_name.as_str(), from_version, config, known),
    }
}

/// Propose an update for one reference at time `now`, given the tags of its
/// repository resolved so far: the next tag to resolve, or the finished plan.
pub fn propose(
    resolved: &ResolvedReference,
    releases: &[Release],
    config: &ActioneerConfig,
    issues: &[AuditIssue],
    known: &[TagLookup],
    now: i128,
) -> (r: PlanStep)
    requires
        config_age_ok(*config),
        -INSTANT_BOUND <= now <= INSTANT_BOUND,
    ensures
        step_matches(
            r,
            spec_propose(*resolved, releases@, *config, views(issues@), known@, now as int),
            *resolved,
            *config,
        ),
{
    let reference = &resolved.located.reference;
    let blocked = blocks_update(issues);
    proof {
        if blocked {
            let k = choose|k: int| 0 <= k < issues@.len() && spec_blocks(#[trigger] issues@[k]@);
            assert(views(issues@)[k] == issues@[k]@);
        } else {
            assert forall|k: int| 0 <= k < views(issues@).len() implies !spec_blocks(
                #[trigger] views(issues@)[k],
            ) by {
                assert(views(issues@)[k] == issues@[k]@);
            }
        }
    }
    if !reference.kind.is_updatable() || blocked {
        return PlanStep::Done(None);
    }
    if reference.pin_kind == PinKind::Branch && config.skip_branches {
        return PlanStep::Done(None);
    }
    if chars_of(resolved.current.sha.as_str()).len() == 0 {
        return PlanStep::Done(None);
    }
    if let Some(comment) = first_mismatch_comment(issues) {
        if !find_remediation(releases, comment.as_str(), config.min_release_age, now) {
            return PlanStep::Done(None);
        }
        return build_plan(resolved, comment.as_str(), Some(comment.clone()), config, known);
    }
    let from_version = written_version_tag(reference);
    match version_baseline(reference) {
        VersionBaseline::MajorOnly(major) => propose_major_only(
            resolved,
            releases,
            config,
            known,
            now,
            major,
            from_version,
        ),
        VersionBaseline::Exact(v) => {
            match select_release(releases, &v, config.update, config.min_release_age, now) {
                None => PlanStep::Done(None),
                Some(rel) => {
                    let same = match &from_version {
                        Some(w) => str_eq(rel.tag_name.as_str(), w.as_str()),
                        None => false,
                    };
                    if same {
                        PlanStep::Done(None)
                    } else {
                        build_plan(resolved, rel.tag_name.as_str(), from_version, config, known)
                    }
                },
            }
        },
        VersionBaseline::Unknown => PlanStep::Done(None),
    }
}

/// Propose an update at the current time. The step is that of [`propose`]
/// at some instant that the clock gave.
pub fn propose_now(
    resolved: &ResolvedReference,
    releases: &[Release],
    config: &ActioneerConfig,
    issues: &[AuditIssue],
    known: &[TagLookup],
) -> (r: PlanStep)
    requires
        config_age_ok(*config),
    ensures
        exists|now: int|
            -INSTANT_BOUND <= now <= INSTANT_BOUND && step_matches(
                r,
                spec_propose(*resolved, releases@, *config, views(issues@), known@, now),
                *resolved,
                *config,
            ),
{
    let now = now_nanos();
    propose(resolved, releases, config, issues, known, now)
}

} // verus!
