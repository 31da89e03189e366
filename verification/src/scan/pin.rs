//! Pin classification, release selection and target-line construction for
//! audit and plan.
use vstd::prelude::*;

use crate::clock::{INSTANT_BOUND, parse_rfc3339, rfc3339_nanos};
use crate::config::{
    ActioneerConfig, DurationUnit, PinMode, RelativeDuration, UpdateLevel, spec_parse_u64,
};
use crate::engine::{ActionReference, PinKind, opt_view};
use crate::github::Release;
use crate::render::{dec_string, push_decimal};
use crate::semver_ext::{build_order, compare_build, parse_semver, semver_parse};
use crate::text::{all_digits, chars_of, digit, push_str, rfind_char, slice_vec, str_eq, string_of};

use super::types::PlannedChange;

verus! {

// ---------------------------------------------------------------------------
// Versions
// ---------------------------------------------------------------------------
/// A release version without pre-release part: the numbers and the build metadata.
#[derive(Debug, Clone, PartialEq, Eq)]
pub struct SemVer {
    pub major: u64,
    pub minor: u64,
    pub patch: u64,
    pub build: String,
}

/// A [`SemVer`] as values.
pub ghost struct SemVerView {
    pub major: u64,
    pub minor: u64,
    pub patch: u64,
    pub build: Seq<char>,
}

impl View for SemVer {
    type V = SemVerView;

    open spec fn view(&self) -> SemVerView {
        SemVerView { major: self.major, minor: self.minor, patch: self.patch, build: self.build@ }
    }
}

/// The version order of `semver`: the three numbers in turn, then the build
/// metadata; negative, zero or positive.
pub open spec fn sv_order(a: SemVerView, b: SemVerView) -> int {
    if a.major != b.major {
        if a.major < b.major {
            -1
        } else {
            1
        }
    } else if a.minor != b.minor {
        if a.minor < b.minor {
            -1
        } else {
            1
        }
    } else if a.patch != b.patch {
        if a.patch < b.patch {
            -1
        } else {
            1
        }
    } else {
        build_order(a.build, b.build)
    }
}

/// Compares two versions in `semver`'s order: -1, 0 or 1.
pub fn compare_semver(a: &SemVer, b: &SemVer) -> (r: i8)
    ensures
        r == sv_order(a@, b@),
        r == -1 || r == 0 || r == 1,
{
    if a.major != b.major {
        if a.major < b.major {
            -1
        } else {
            1
        }
    } else if a.minor != b.minor {
        if a.minor < b.minor {
            -1
        } else {
            1
        }
    } else if a.patch != b.patch {
        if a.patch < b.patch {
            -1
        } else {
            1
        }
    } else {
        compare_build(a.build.as_str(), b.build.as_str())
    }
}

/// The text `v1.2.3` (with `+build` when there is build metadata).
pub open spec fn version_tag_text(v: SemVerView) -> Seq<char> {
    "v"@ + dec_string(v.major as nat) + "."@ + dec_string(v.minor as nat) + "."@ + dec_string(
        v.patch as nat,
    ) + if v.build.len() > 0 {
        "+"@ + v.build
    } else {
        Seq::empty()
    }
}

/// `v` followed by the version as `semver` displays it.
pub fn format_version_tag(v: &SemVer) -> (r: String)
    ensures
        r@ == version_tag_text(v@),
{
    let mut out = String::new();
    push_str(&mut out, "v");
    push_decimal(&mut out, v.major);
    push_str(&mut out, ".");
    push_decimal(&mut out, v.minor);
    push_str(&mut out, ".");
    push_decimal(&mut out, v.patch);
    if chars_of(v.build.as_str()).len() > 0 {
        push_str(&mut out, "+");
        push_str(&mut out, v.build.as_str());
    }
    proof {
        reveal_strlit("v");
        reveal_strlit(".");
        reveal_strlit("+");
    }
    out
}

// ---------------------------------------------------------------------------
// Tag shapes
// ---------------------------------------------------------------------------
/// Shape of a version tag string.
#[derive(Debug, Clone, PartialEq, Eq)]
pub enum TagShape {
    /// `v4`: digits only, after an optional `v`.
    MajorOnly(u64),
    /// A dotted version that `semver` accepts, without pre-release part.
    FullSemver(SemVer),
    /// A dotted string that is not a plain release version.
    Partial,
    /// Anything else.
    NotVersion,
}

/// A [`TagShape`] as values.
pub ghost enum ShapeView {
    MajorOnly(u64),
    FullSemver(SemVerView),
    Partial,
    NotVersion,
}

impl View for TagShape {
    type V = ShapeView;

    open spec fn view(&self) -> ShapeView {
        match self {
            TagShape::MajorOnly(m) => ShapeView::MajorOnly(*m),
            TagShape::FullSemver(v) => ShapeView::FullSemver(v@),
            TagShape::Partial => ShapeView::Partial,
            TagShape::NotVersion => ShapeView::NotVersion,
        }
    }
}

/// `s` without one leading `v`.
pub open spec fn without_v(s: Seq<char>) -> Seq<char> {
    if s.len() > 0 && s[0] == 'v' {
        s.drop_first()
    } else {
        s
    }
}

/// The shape of a tag: after an optional `v`, digits that fit in a `u64` are
/// a major line; a dotted string is a full version when `semver` accepts it
/// without pre-release part and partial otherwise; anything else is no version.
pub open spec fn spec_classify_tag(s: Seq<char>) -> ShapeView {
    let w = without_v(s);
    if w.len() > 0 && all_digits(w) && spec_parse_u64(w) is Some {
        ShapeView::MajorOnly(spec_parse_u64(w)->0)
    } else if w.contains('.') {
        match semver_parse(w) {
            Some((ma, mi, pa, pre, build)) => if pre.len() == 0 {
                ShapeView::FullSemver(SemVerView { major: ma, minor: mi, patch: pa, build })
            } else {
                ShapeView::Partial
            },
            None => ShapeView::Partial,
        }
    } else {
        ShapeView::NotVersion
    }
}

fn all_digits_vec(cs: &[char]) -> (r: bool)
    ensures
        r == all_digits(cs@),
{
    let mut i: usize = 0;
    while i < cs.len()
        invariant
            0 <= i <= cs.len(),
            forall|j: int| 0 <= j < i ==> crate::text::is_digit(#[trigger] cs@[j]),
        decreases cs.len() - i,
    {
        if !digit(cs[i]) {
            return false;
        }
        i += 1;
    }
    true
}

/// The shape of a version tag string.
pub fn classify_tag(git_ref: &str) -> (r: TagShape)
    ensures
        r@ == spec_classify_tag(git_ref@),
{
    let cs = chars_of(git_ref);
    let w = if cs.len() > 0 && cs[0] == 'v' {
        slice_vec(&cs, 1, cs.len())
    } else {
        cs
    };
    assert(w@ == without_v(git_ref@));
    if w.len() > 0 && all_digits_vec(&w) {
        if let Some(major) = crate::config::parse_u64(&w) {
            return TagShape::MajorOnly(major);
        }
    }
    if crate::text::find_char(&w, '.').is_some() {
        let text = string_of(&w);
        match parse_semver(text.as_str()) {
            Some(p) => {
                if chars_of(p.pre.as_str()).len() == 0 {
                    TagShape::FullSemver(
                        SemVer { major: p.major, minor: p.minor, patch: p.patch, build: p.build },
                    )
                } else {
                    TagShape::Partial
                }
            },
            None => TagShape::Partial,
        }
    } else {
        TagShape::NotVersion
    }
}

/// The full version a tag names, if it names one.
pub open spec fn spec_semver_tag(tag: Seq<char>) -> Option<SemVerView> {
    match spec_classify_tag(tag) {
        ShapeView::FullSemver(v) => Some(v),
        _ => None,
    }
}

/// The full version that `tag` names, if it names one.
pub fn parse_semver_tag(tag: &str) -> (r: Option<SemVer>)
    ensures
        match r {
            Some(v) => spec_semver_tag(tag@) == Some(v@),
            None => spec_semver_tag(tag@) is None,
        },
{
    match classify_tag(tag) {
        TagShape::FullSemver(v) => Some(v),
        _ => None,
    }
}

// ---------------------------------------------------------------------------
// The written pin
// ---------------------------------------------------------------------------
/// The version label written on a `uses:` line: the tag of a tag pin, the
/// comment of a SHA pin.
pub open spec fn spec_written_version_tag(r: ActionReference) -> Option<Seq<char>> {
    match r.pin_kind {
        PinKind::Tag => opt_view(r.git_ref),
        PinKind::FullSha | PinKind::ShortSha => opt_view(r.line_comment),
        _ => None,
    }
}

/// Version label as written on the `uses:` line (tag or SHA comment).
pub fn written_version_tag(reference: &ActionReference) -> (r: Option<String>)
    ensures
        opt_view(r) == spec_written_version_tag(*reference),
{
    match reference.pin_kind {
        PinKind::Tag => crate::text::clone_opt_string(&reference.git_ref),
        PinKind::FullSha | PinKind::ShortSha => crate::text::clone_opt_string(
            &reference.line_comment,
        ),
        _ => None,
    }
}

/// Baseline for semver comparisons, derived from the written pin only.
#[derive(Debug, Clone, PartialEq, Eq)]
pub enum VersionBaseline {
    Exact(SemVer),
    MajorOnly(u64),
    Unknown,
}

/// A [`VersionBaseline`] as values.
pub ghost enum BaselineView {
    Exact(SemVerView),
    MajorOnly(u64),
    Unknown,
}

impl View for VersionBaseline {
    type V = BaselineView;

    open spec fn view(&self) -> BaselineView {
        match self {
            VersionBaseline::Exact(v) => BaselineView::Exact(v@),
            VersionBaseline::MajorOnly(m) => BaselineView::MajorOnly(*m),
            VersionBaseline::Unknown => BaselineView::Unknown,
        }
    }
}

pub open spec fn spec_version_baseline(r: ActionReference) -> BaselineView {
    match spec_written_version_tag(r) {
        None => BaselineView::Unknown,
        Some(w) => match spec_classify_tag(w) {
            ShapeView::FullSemver(v) => BaselineView::Exact(v),
            ShapeView::MajorOnly(m) => BaselineView::MajorOnly(m),
            _ => BaselineView::Unknown,
        },
    }
}

/// Semver baseline from the written pin, with no GitHub call.
pub fn version_baseline(reference: &ActionReference) -> (r: VersionBaseline)
    ensures
        r@ == spec_version_baseline(*reference),
{
    let written = match written_version_tag(reference) {
        Some(w) => w,
        None => return VersionBaseline::Unknown,
    };
    match classify_tag(written.as_str()) {
        TagShape::FullSemver(v) => VersionBaseline::Exact(v),
        TagShape::MajorOnly(m) => VersionBaseline::MajorOnly(m),
        _ => VersionBaseline::Unknown,
    }
}

// ---------------------------------------------------------------------------
// Target values
// ---------------------------------------------------------------------------
/// `s` up to its last `@`, or all of `s` when it has none.
pub open spec fn before_last_at(s: Seq<char>) -> Seq<char>
    decreases s.len(),
{
    if !s.contains('@') {
        s
    } else if s.last() == '@' {
        s.drop_last()
    } else {
        before_last_at(s.drop_last())
    }
}

proof fn lemma_before_last_at(s: Seq<char>, i: int)
    requires
        0 <= i < s.len(),
        s[i] == '@',
        forall|j: int| i < j < s.len() ==> s[j] != '@',
    ensures
        before_last_at(s) == s.take(i),
    decreases s.len(),
{
    assert(s.contains('@'));
    if s.last() != '@' {
        assert(s.drop_last()[i] == '@');
        lemma_before_last_at(s.drop_last(), i);
        assert(s.drop_last().take(i) == s.take(i));
    } else {
        assert(i == s.len() - 1);
    }
}

proof fn lemma_no_at(s: Seq<char>)
    requires
        forall|j: int| 0 <= j < s.len() ==> s[j] != '@',
    ensures
        before_last_at(s) == s,
{
    if s.contains('@') {
        let k = choose|k: int| 0 <= k < s.len() && s[k] == '@';
        assert(s[k] != '@');
    }
}

/// The `uses:` value without its `@ref`.
pub fn base_of(raw: &str) -> (r: String)
    ensures
        r@ == before_last_at(raw@),
{
    let cs = chars_of(raw);
    match rfind_char(&cs, '@') {
        Some(i) => {
            proof {
                lemma_before_last_at(cs@, i as int);
            }
            crate::text::string_of_range(&cs, 0, i)
        },
        None => {
            proof {
                lemma_no_at(cs@);
            }
            raw.to_string()
        },
    }
}

/// The `uses:` value a plan writes: the base with the new pin, and a
/// trailing comment with the version in SHA mode, or with the pin in tag mode
/// when the line had a comment.
pub open spec fn target_text(
    r: ActionReference,
    to_ref: Seq<char>,
    to_comment: Option<Seq<char>>,
    mode: PinMode,
) -> Seq<char> {
    let head = before_last_at(r.raw@) + "@"@ + to_ref;
    match mode {
        PinMode::Sha => match to_comment {
            Some(c) => head + " # "@ + c,
            None => head,
        },
        PinMode::Tag => if r.line_comment is Some {
            head + " # "@ + to_ref
        } else {
            head
        },
    }
}

pub open spec fn spec_target_value(r: ActionReference, p: PlannedChange, mode: PinMode) -> Seq<char> {
    target_text(r, p.to_ref@, opt_view(p.to_comment), mode)
}

/// The `uses:` value (and comment) that applying `planned` would write.
pub fn build_target_value(reference: &ActionReference, planned: &PlannedChange, pin_mode: PinMode) -> (r:
    String)
    ensures
        r@ == spec_target_value(*reference, *planned, pin_mode),
{
    let mut out = base_of(reference.raw.as_str());
    push_str(&mut out, "@");
    push_str(&mut out, planned.to_ref.as_str());
    proof {
        reveal_strlit("@");
        reveal_strlit(" # ");
    }
    match pin_mode {
        PinMode::Sha => match &planned.to_comment {
            Some(c) => {
                push_str(&mut out, " # ");
                push_str(&mut out, c.as_str());
            },
            None => {},
        },
        PinMode::Tag => {
            if reference.line_comment.is_some() {
                push_str(&mut out, " # ");
                push_str(&mut out, planned.to_ref.as_str());
            }
        },
    }
    out
}

/// Whether applying `planned` would change what is written on the line.
pub fn would_change(reference: &ActionReference, planned: &PlannedChange, config: &ActioneerConfig) -> (r:
    bool)
    ensures
        r == (spec_target_value(*reference, *planned, config.pin) != reference.raw@),
{
    let target = build_target_value(reference, planned, config.pin);
    !str_eq(target.as_str(), reference.raw.as_str())
}

// ---------------------------------------------------------------------------
// Release age
// ---------------------------------------------------------------------------
pub open spec fn unit_seconds(u: DurationUnit) -> int {
    match u {
        DurationUnit::Days => 86400,
        DurationUnit::Hours => 3600,
        DurationUnit::Minutes => 60,
    }
}

/// A minimum age that `time::Duration` can hold: its seconds fit in an `i64`.
pub open spec fn age_in_range(d: RelativeDuration) -> bool {
    d.amount * unit_seconds(d.unit) <= i64::MAX
}

/// The configured minimum age is absent or one that `time::Duration` can hold.
pub open spec fn config_age_ok(c: ActioneerConfig) -> bool {
    c.min_release_age matches Some(d) ==> age_in_range(d)
}

/// Whether the configured minimum age is one that `time::Duration` can hold.
pub fn age_fits(config: &ActioneerConfig) -> (r: bool)
    ensures
        r == config_age_ok(*config),
{
    match config.min_release_age {
        None => true,
        Some(d) => {
            let unit: u128 = match d.unit {
                DurationUnit::Days => 86400,
                DurationUnit::Hours => 3600,
                DurationUnit::Minutes => 60,
            };
            let secs: u128 = d.amount as u128 * unit;
            secs <= 0x7fff_ffff_ffff_ffffu128
        },
    }
}

pub open spec fn min_age_nanos(d: RelativeDuration) -> int {
    d.amount * unit_seconds(d.unit) * 1_000_000_000
}

/// A release published at `published` has reached `min_age` at time `now`:
/// always when there is no minimum, never when the date does not parse.
pub open spec fn meets_min_age(published: Seq<char>, min_age: Option<RelativeDuration>, now: int) -> bool {
    match min_age {
        None => true,
        Some(d) => match rfc3339_nanos(published) {
            None => false,
            Some(t) => now - t >= min_age_nanos(d),
        },
    }
}

/// The minimum age in nanoseconds.
pub fn min_age_in_nanos(d: RelativeDuration) -> (r: i128)
    requires
        age_in_range(d),
    ensures
        r == min_age_nanos(d),
        0 <= r <= i64::MAX * 1_000_000_000,
{
    let secs: i128 = match d.unit {
        DurationUnit::Days => 86400,
        DurationUnit::Hours => 3600,
        DurationUnit::Minutes => 60,
    };
    let amount = d.amount as i128;
    assert(amount * secs <= i64::MAX);
    assert(0 <= amount * secs) by (nonlinear_arith)
        requires
            0 <= amount,
            0 <= secs,
    ;
    let total = amount * secs;
    assert(total * 1_000_000_000 <= i64::MAX * 1_000_000_000) by (nonlinear_arith)
        requires
            0 <= total <= i64::MAX,
    ;
    total * 1_000_000_000
}

/// Whether `release` is old enough at time `now`.
pub fn release_meets_min_age(release: &Release, min_age: Option<RelativeDuration>, now: i128) -> (r:
    bool)
    requires
        min_age matches Some(d) ==> age_in_range(d),
        -INSTANT_BOUND <= now <= INSTANT_BOUND,
    ensures
        r == meets_min_age(release.published_at@, min_age, now as int),
{
    let d = match min_age {
        Some(d) => d,
        None => return true,
    };
    let published = match parse_rfc3339(release.published_at.as_str()) {
        Some(p) => p,
        None => return false,
    };
    let min = min_age_in_nanos(d);
    now - published >= min
}

// ---------------------------------------------------------------------------
// Choosing releases
// ---------------------------------------------------------------------------
/// The version a release's tag names (meaningful when it names one).
pub open spec fn release_version(r: Release) -> SemVerView {
    spec_semver_tag(r.tag_name@)->0
}

/// A published (non-prerelease) release whose tag is a full version on line `major`.
pub open spec fn on_major(r: Release, major: u64) -> bool {
    !r.prerelease && spec_semver_tag(r.tag_name@) is Some && release_version(r).major == major
}

/// The newest release on a major line; on ties the later one, as
/// `Iterator::max_by` keeps.
pub open spec fn latest_fold(rs: Seq<Release>, major: u64, k: int, acc: Option<int>) -> Option<int>
    decreases rs.len() - k,
{
    if k < 0 || k >= rs.len() {
        acc
    } else if on_major(rs[k], major) && (match acc {
        Some(a) => sv_order(release_version(rs[a]), release_version(rs[k])) <= 0,
        None => true,
    }) {
        latest_fold(rs, major, k + 1, Some(k))
    } else {
        latest_fold(rs, major, k + 1, acc)
    }
}

pub open spec fn spec_latest_on_major(rs: Seq<Release>, major: u64) -> Option<int> {
    latest_fold(rs, major, 0, None)
}

pub proof fn lemma_latest_fold_on_major(rs: Seq<Release>, major: u64, k: int, acc: Option<int>)
    requires
        0 <= k,
        acc matches Some(a) ==> 0 <= a < rs.len() && on_major(rs[a], major),
    ensures
        latest_fold(rs, major, k, acc) matches Some(i) ==> 0 <= i < rs.len() && on_major(rs[i], major),
    decreases rs.len() - k,
{
    if k < rs.len() {
        if on_major(rs[k], major) && (match acc {
            Some(a) => sv_order(release_version(rs[a]), release_version(rs[k])) <= 0,
            None => true,
        }) {
            lemma_latest_fold_on_major(rs, major, k + 1, Some(k));
        } else {
            lemma_latest_fold_on_major(rs, major, k + 1, acc);
        }
    }
}

/// Pick the newest semver release on a major line (tag names only).
pub fn latest_on_major(releases: &[Release], major: u64) -> (r: Option<&Release>)
    ensures
        match spec_latest_on_major(releases@, major) {
            Some(i) => r matches Some(x) && *x == releases@[i] && 0 <= i < releases@.len()
                && on_major(releases@[i], major),
            None => r is None,
        },
{
    let mut best: Option<usize> = None;
    let mut best_v: Option<SemVer> = None;
    let mut k: usize = 0;
    while k < releases.len()
        invariant
            0 <= k <= releases.len(),
            latest_fold(releases@, major, k as int, match best {
                Some(b) => Some(b as int),
                None => None,
            }) == spec_latest_on_major(releases@, major),
            best matches Some(b) ==> b < k && on_major(releases@[b as int], major) && (best_v
                matches Some(bv) && bv@ == release_version(releases@[b as int])),
            best is None ==> best_v is None,
        decreases releases.len() - k,
    {
        let rel = &releases[k];
        if !rel.prerelease {
            if let Some(v) = parse_semver_tag(rel.tag_name.as_str()) {
                if v.major == major {
                    let take = match &best_v {
                        Some(bv) => compare_semver(bv, &v) <= 0,
                        None => true,
                    };
                    if take {
                        best = Some(k);
                        best_v = Some(v);
                    }
                }
            }
        }
        k += 1;
    }
    proof {
        lemma_latest_fold_on_major(releases@, major, 0, None);
    }
    match best {
        Some(b) => Some(&releases[b]),
        None => None,
    }
}

/// `candidate` is newer than `current` and within the update level.
pub open spec fn spec_is_candidate(current: SemVerView, candidate: SemVerView, level: UpdateLevel) -> bool {
    sv_order(candidate, current) > 0 && match level {
        UpdateLevel::Patch => candidate.major == current.major && candidate.minor == current.minor,
        UpdateLevel::Minor => candidate.major == current.major,
        UpdateLevel::Major => true,
    }
}

/// Whether `candidate` may replace `current` at update level `level`.
pub fn is_candidate(current: &SemVer, candidate: &SemVer, level: UpdateLevel) -> (r: bool)
    ensures
        r == spec_is_candidate(current@, candidate@, level),
{
    if compare_semver(candidate, current) <= 0 {
        return false;
    }
    match level {
        UpdateLevel::Patch => candidate.major == current.major && candidate.minor == current.minor,
        UpdateLevel::Minor => candidate.major == current.major,
        UpdateLevel::Major => true,
    }
}

/// A published release, newer than `current` within `level`, old enough at `now`.
pub open spec fn eligible_release(
    r: Release,
    current: SemVerView,
    level: UpdateLevel,
    min_age: Option<RelativeDuration>,
    now: int,
) -> bool {
    &&& !r.prerelease
    &&& spec_semver_tag(r.tag_name@) is Some
    &&& spec_is_candidate(current, release_version(r), level)
    &&& meets_min_age(r.published_at@, min_age, now)
}

/// The highest eligible release; on ties the earlier one, as a stable sort
/// from highest to lowest puts first.
pub open spec fn select_fold(
    rs: Seq<Release>,
    current: SemVerView,
    level: UpdateLevel,
    min_age: Option<RelativeDuration>,
    now: int,
    k: int,
    acc: Option<int>,
) -> Option<int>
    decreases rs.len() - k,
{
    if k < 0 || k >= rs.len() {
        acc
    } else if eligible_release(rs[k], current, level, min_age, now) && (match acc {
        Some(a) => sv_order(release_version(rs[a]), release_version(rs[k])) < 0,
        None => true,
    }) {
        select_fold(rs, current, level, min_age, now, k + 1, Some(k))
    } else {
        select_fold(rs, current, level, min_age, now, k + 1, acc)
    }
}

pub open spec fn spec_select_release(
    rs: Seq<Release>,
    current: SemVerView,
    level: UpdateLevel,
    min_age: Option<RelativeDuration>,
    now: int,
) -> Option<int> {
    select_fold(rs, current, level, min_age, now, 0, None)
}

pub proof fn lemma_select_fold_eligible(
    rs: Seq<Release>,
    current: SemVerView,
    level: UpdateLevel,
    min_age: Option<RelativeDuration>,
    now: int,
    k: int,
    acc: Option<int>,
)
    requires
        0 <= k,
        acc matches Some(a) ==> 0 <= a < rs.len() && eligible_release(
            rs[a],
            current,
            level,
            min_age,
            now,
        ),
    ensures
        select_fold(rs, current, level, min_age, now, k, acc) matches Some(i) ==> 0 <= i < rs.len()
            && eligible_release(rs[i], current, level, min_age, now),
    decreases rs.len() - k,
{
    if k < rs.len() {
        if eligible_release(rs[k], current, level, min_age, now) && (match acc {
            Some(a) => sv_order(release_version(rs[a]), release_version(rs[k])) < 0,
            None => true,
        }) {
            lemma_select_fold_eligible(rs, current, level, min_age, now, k + 1, Some(k));
        } else {
            lemma_select_fold_eligible(rs, current, level, min_age, now, k + 1, acc);
        }
    }
}

/// The highest release newer than `current` within `level` that is published
/// and old enough at `now`.
pub fn select_release<'a>(
    releases: &'a [Release],
    current: &SemVer,
    level: UpdateLevel,
    min_age: Option<RelativeDuration>,
    now: i128,
) -> (r: Option<&'a Release>)
    requires
        min_age matches Some(d) ==> age_in_range(d),
        -INSTANT_BOUND <= now <= INSTANT_BOUND,
    ensures
        match spec_select_release(releases@, current@, level, min_age, now as int) {
            Some(i) => r matches Some(x) && *x == releases@[i] && 0 <= i < releases@.len()
                && eligible_release(releases@[i], current@, level, min_age, now as int),
            None => r is None,
        },
{
    let mut best: Option<usize> = None;
    let mut best_v: Option<SemVer> = None;
    let mut k: usize = 0;
    while k < releases.len()
        invariant
            0 <= k <= releases.len(),
            min_age matches Some(d) ==> age_in_range(d),
            -INSTANT_BOUND <= now <= INSTANT_BOUND,
            select_fold(releases@, current@, level, min_age, now as int, k as int, match best {
                Some(b) => Some(b as int),
                None => None,
            }) == spec_select_release(releases@, current@, level, min_age, now as int),
            best matches Some(b) ==> b < k && eligible_release(releases@[b as int], current@, level, min_age, now as int)
                && (best_v matches Some(bv) && bv@ == release_version(releases@[b as int])),
            best is None ==> best_v is None,
        decreases releases.len() - k,
    {
        let rel = &releases[k];
        if !rel.prerelease {
            if let Some(v) = parse_semver_tag(rel.tag_name.as_str()) {
                if is_candidate(current, &v, level) && release_meets_min_age(rel, min_age, now) {
                    let take = match &best_v {
                        Some(bv) => compare_semver(bv, &v) < 0,
                        None => true,
                    };
                    if take {
                        best = Some(k);
                        best_v = Some(v);
                    }
                }
            }
        }
        k += 1;
    }
    proof {
        lemma_select_fold_eligible(releases@, current@, level, min_age, now as int, 0, None);
    }
    match best {
        Some(b) => Some(&releases[b]),
        None => None,
    }
}

} // verus!
