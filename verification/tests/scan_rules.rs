use actioneer::config::{ActioneerConfig, DurationUnit, PinMode, RelativeDuration, UpdateLevel};
use actioneer::engine::{ActionReference, CommentMatch, PinKind, ReferenceKind};
use actioneer::github::{RefKind, Release, ResolvedRef};
use actioneer::scan::audit::evaluate_now;
use actioneer::scan::plan::{PlanStep, TagLookup, propose_now};
use actioneer::scan::display::{plan_from_label, plan_to_label};
use actioneer::scan::pin::{SemVer, TagShape, VersionBaseline, classify_tag, version_baseline, would_change};
use actioneer::scan::apply::{file_outcome, file_step};
use actioneer::scan::{
    ApplyTarget, AuditIssue, CommentTagResolution, LocatedReference, PlanReason, PlannedChange, ReferenceReport,
    ResolvedReference, ScanReport, ScanStats, WorkflowReport,
};
use actioneer::syntax::parse_action_ref;

fn semver(major: u64, minor: u64, patch: u64) -> SemVer {
    SemVer { major, minor, patch, build: String::new() }
}

fn reference(raw: &str, pin_kind: PinKind, git_ref: &str, line_comment: Option<&str>, kind: ReferenceKind) -> ActionReference {
    ActionReference {
        raw: raw.into(),
        kind,
        pin_kind,
        owner: Some("actions".into()),
        repo: Some("checkout".into()),
        subpath: None,
        git_ref: Some(git_ref.into()),
        step_name: None,
        job_id: "build".into(),
        job_name: None,
        step_index: Some(0),
        line: Some(10),
        line_comment: line_comment.map(str::to_string),
    }
}

fn resolved(pin_kind: PinKind, git_ref: &str, line_comment: Option<&str>) -> ResolvedReference {
    ResolvedReference {
        located: LocatedReference {
            workflow_path: ".github/workflows/ci.yml".into(),
            reference: reference(&format!("actions/checkout@{git_ref}"), pin_kind, git_ref, line_comment, ReferenceKind::Action),
        },
        current: ResolvedRef { sha: "a".repeat(40), ref_kind: RefKind::Tag, published_at: None },
        comment_match: CommentMatch::NoComment,
    }
}

fn planned_sha() -> PlannedChange {
    PlannedChange {
        from_ref: "df4cb1c069e1874edd31b4311f1884172cec0e10".into(),
        to_ref: "9c091bb21b7c8f2f3e4d5a6b7c8d9e0f1a2b3c4d".into(),
        from_version: Some("v6.0.3".into()),
        to_sha: "9c091bb21b7c8f2f3e4d5a6b7c8d9e0f1a2b3c4d".into(),
        to_comment: Some("v6.0.4".into()),
        reason: PlanReason::SemverBump { level: "minor".into() },
    }
}

#[test]
fn sha_pin_shows_version_and_short_sha() {
    let r = resolved(PinKind::FullSha, "df4cb1c069e1874edd31b4311f1884172cec0e10", Some("v6.0.3"));
    let p = planned_sha();
    assert_eq!(plan_from_label(&r, &p), "v6.0.3 (df4cb1c069e…)");
    assert_eq!(plan_to_label(&p, PinMode::Sha), "v6.0.4 (9c091bb21b7…)");
}

#[test]
fn tag_pin_shows_tags_only() {
    let r = resolved(PinKind::Tag, "v4.1.0", None);
    let p = PlannedChange {
        from_ref: "v4.1.0".into(),
        to_ref: "v4.2.0".into(),
        from_version: Some("v4.1.0".into()),
        to_sha: "b".repeat(40),
        to_comment: None,
        reason: PlanReason::SemverBump { level: "minor".into() },
    };
    assert_eq!(plan_from_label(&r, &p), "v4.1.0");
    assert_eq!(plan_to_label(&p, PinMode::Tag), "v4.2.0");
}

#[test]
fn branch_shows_branch_name_only() {
    let r = resolved(PinKind::Branch, "main", None);
    let p = PlannedChange {
        from_ref: "main".into(),
        to_ref: "deadbeef".repeat(5),
        from_version: None,
        to_sha: "c".repeat(40),
        to_comment: Some("v1.0.0".into()),
        reason: PlanReason::SemverBump { level: "minor".into() },
    };
    assert_eq!(plan_from_label(&r, &p), "main");
}

#[test]
fn classify_major_only_and_full_semver() {
    assert_eq!(classify_tag("v4"), TagShape::MajorOnly(4));
    assert_eq!(classify_tag("v4.2.0"), TagShape::FullSemver(semver(4, 2, 0)));
}

#[test]
fn baseline_from_written_pin() {
    let r = reference("actions/checkout@v4.1.0", PinKind::Tag, "v4.1.0", None, ReferenceKind::Action);
    assert_eq!(version_baseline(&r), VersionBaseline::Exact(semver(4, 1, 0)));
}

#[test]
fn would_change_normalizes_major_only_tag() {
    let r = reference("actions/checkout@v4", PinKind::Tag, "v4", None, ReferenceKind::Action);
    let planned = PlannedChange {
        from_ref: "v4".into(),
        to_ref: "v4.2.0".into(),
        from_version: Some("v4".into()),
        to_sha: "b".repeat(40),
        to_comment: None,
        reason: PlanReason::SemverBump { level: "minor".into() },
    };
    let config = ActioneerConfig { pin: PinMode::Tag, ..Default::default() };
    assert!(would_change(&r, &planned, &config));
}

fn releases() -> Vec<Release> {
    vec![
        Release { tag_name: "v4.1.0".into(), published_at: "2020-06-01T00:00:00Z".into(), prerelease: false },
        Release { tag_name: "v4.2.0".into(), published_at: "2021-06-01T00:00:00Z".into(), prerelease: false },
    ]
}

fn action_ref(pin_kind: PinKind, git_ref: &str, line_comment: Option<&str>, kind: ReferenceKind) -> ResolvedReference {
    ResolvedReference {
        located: LocatedReference {
            workflow_path: ".github/workflows/ci.yml".into(),
            reference: reference(&format!("actions/checkout@{git_ref}"), pin_kind, git_ref, line_comment, kind),
        },
        current: ResolvedRef {
            sha: "a".repeat(40),
            ref_kind: RefKind::Tag,
            published_at: Some("2020-01-01T00:00:00Z".into()),
        },
        comment_match: CommentMatch::NoComment,
    }
}

#[test]
fn branch_pin_is_mutable() {
    let resolved = action_ref(PinKind::Branch, "main", None, ReferenceKind::Action);
    let issues = evaluate_now(&resolved, &[], &ActioneerConfig::default(), &CommentTagResolution::NotApplicable);
    assert!(issues.iter().any(|i| matches!(i, AuditIssue::MutableBranch)));
}

#[test]
fn major_only_tag_is_floating() {
    let resolved = action_ref(PinKind::Tag, "v4", None, ReferenceKind::Action);
    let issues = evaluate_now(&resolved, &[], &ActioneerConfig::default(), &CommentTagResolution::NotApplicable);
    assert!(issues.iter().any(|i| matches!(i, AuditIssue::FloatingMajorPin { .. })));
}

#[test]
fn sha_comment_matching_release_has_no_mismatch() {
    let sha = "a".repeat(40);
    let mut resolved = action_ref(PinKind::FullSha, &sha, Some("v4.2.0"), ReferenceKind::Action);
    resolved.current.sha = sha.clone();
    resolved.comment_match = CommentMatch::Match;
    let issues = evaluate_now(
        &resolved,
        &releases(),
        &ActioneerConfig::default(),
        &CommentTagResolution::Resolved { tag: "v4.2.0".into(), sha: sha.clone() },
    );
    assert!(issues.is_empty());
}

#[test]
fn sha_major_only_comment_has_unverifiable_provenance() {
    let sha = "a".repeat(40);
    let mut resolved = action_ref(PinKind::FullSha, &sha, Some("v4"), ReferenceKind::Action);
    resolved.current.sha = sha;
    resolved.comment_match = CommentMatch::Match;
    let issues =
        evaluate_now(&resolved, &releases(), &ActioneerConfig::default(), &CommentTagResolution::NotApplicable);
    assert!(issues.iter().any(|i| matches!(i, AuditIssue::ShaProvenanceUnverifiable { .. })));
}

#[test]
fn sha_comment_mismatch_carries_expected_sha() {
    let sha = "a".repeat(40);
    let other = "b".repeat(40);
    let mut resolved = action_ref(PinKind::FullSha, &sha, Some("v4.2.0"), ReferenceKind::Action);
    resolved.current.sha = sha;
    let issues = evaluate_now(
        &resolved,
        &releases(),
        &ActioneerConfig::default(),
        &CommentTagResolution::Resolved { tag: "v4.2.0".into(), sha: other.clone() },
    );
    assert!(issues.iter().any(|issue| matches!(
        issue,
        AuditIssue::ShaCommentMismatch { comment, expected_sha } if comment == "v4.2.0" && expected_sha == &other
    )));
}

#[test]
fn update_blocked_by_config_when_patch_level_blocks_minor() {
    let resolved = action_ref(PinKind::Tag, "v4.1.0", None, ReferenceKind::Action);
    let config = ActioneerConfig { update: UpdateLevel::Patch, ..Default::default() };
    let issues = evaluate_now(&resolved, &releases(), &config, &CommentTagResolution::NotApplicable);
    assert!(issues.iter().any(|i| matches!(i, AuditIssue::UpdateBlockedByConfig { .. })));
}

#[test]
fn sha_mode_flags_tag_pin() {
    let resolved = action_ref(PinKind::Tag, "v4", None, ReferenceKind::Action);
    let config = ActioneerConfig { pin: PinMode::Sha, ..Default::default() };
    let issues = evaluate_now(&resolved, &[], &config, &CommentTagResolution::NotApplicable);
    assert!(issues.iter().any(|i| matches!(i, AuditIssue::NotShaPinned)));
}

#[test]
fn ignores_local_and_docker() {
    assert!(parse_action_ref("./local-action").is_none());
    assert!(parse_action_ref("../shared-action").is_none());
    assert!(parse_action_ref("docker://alpine:3.20").is_none());
}

fn sha_b() -> String {
    "bbbbbbbbbbbbbbbbbbbbbbbbbbbbbbbbbbbbbbbb".into()
}

fn tag_ref(git_ref: &str) -> ResolvedReference {
    let mut r = action_ref(PinKind::Tag, git_ref, None, ReferenceKind::Action);
    r.current.sha = sha_b();
    r
}

fn sha_ref(sha: &str, comment: &str) -> ResolvedReference {
    let mut resolved = tag_ref(sha);
    resolved.located.reference.raw = format!("actions/checkout@{sha} # {comment}");
    resolved.located.reference.pin_kind = PinKind::FullSha;
    resolved.located.reference.line_comment = Some(comment.into());
    resolved.current.sha = sha.into();
    resolved.current.ref_kind = RefKind::Sha;
    resolved
}

/// Runs the planner to its end, answering each tag it asks for from an
/// offline tag cache that holds `v4.2.0` at `sha_b()` and nothing else.
fn plan(
    resolved: &ResolvedReference,
    releases: &[Release],
    config: &ActioneerConfig,
    issues: &[AuditIssue],
) -> Option<PlannedChange> {
    let mut known: Vec<TagLookup> = Vec::new();
    loop {
        match propose_now(resolved, releases, config, issues, &known) {
            PlanStep::Done(p) => return p,
            PlanStep::Resolve(tag) => {
                let sha = if tag == "v4.2.0" { Some(sha_b()) } else { None };
                known.push(TagLookup { tag, sha });
            }
        }
    }
}

#[test]
fn major_only_plans_to_latest_on_line() {
    let config = ActioneerConfig { pin: PinMode::Tag, update: UpdateLevel::Minor, offline: true, ..Default::default() };
    let planned = plan(&tag_ref("v4"), &releases(), &config, &[]).unwrap();

    assert_eq!(planned.from_version.as_deref(), Some("v4"));
    assert_eq!(planned.to_ref, "v4.2.0");
}

#[test]
fn major_only_same_sha_still_plans_normalization() {
    let config = ActioneerConfig { pin: PinMode::Tag, update: UpdateLevel::Minor, offline: true, ..Default::default() };
    assert!(plan(&tag_ref("v4"), &releases(), &config, &[]).is_some());
}

#[test]
fn mismatch_remediation_respects_release_safety_filters() {
    let config = ActioneerConfig {
        offline: true,
        min_release_age: Some(RelativeDuration { amount: 1, unit: DurationUnit::Days }),
        ..Default::default()
    };
    let resolved = sha_ref("aaaaaaaaaaaaaaaaaaaaaaaaaaaaaaaaaaaaaaaa", "v4.2.0");
    let issues = vec![AuditIssue::ShaCommentMismatch { comment: "v4.2.0".into(), expected_sha: sha_b() }];

    let too_young =
        Release { tag_name: "v4.2.0".into(), published_at: "2999-01-01T00:00:00Z".into(), prerelease: false };
    assert!(plan(&resolved, &[too_young], &config, &issues).is_none());

    let prerelease =
        Release { tag_name: "v4.2.0".into(), published_at: "2020-01-01T00:00:00Z".into(), prerelease: true };
    assert!(plan(&resolved, &[prerelease], &config, &issues).is_none());
}

#[test]
fn each_apply_target_is_applied_or_failed_once() {
    let mut r = resolved(PinKind::Tag, "v4.1.0", None);
    r.located.reference.line = Some(2);
    let planned = PlannedChange {
        from_ref: "v4.1.0".into(),
        to_ref: "v4.2.0".into(),
        from_version: Some("v4.1.0".into()),
        to_sha: "b".repeat(40),
        to_comment: None,
        reason: PlanReason::SemverBump { level: "minor".into() },
    };
    let report = ScanReport {
        workflows: vec![WorkflowReport {
            path: ".github/workflows/ci.yml".into(),
            name: None,
            references: vec![ReferenceReport { resolved: r, issues: vec![], planned: Some(planned) }],
        }],
        stats: ScanStats::default(),
    };
    let config = ActioneerConfig { pin: PinMode::Tag, ..Default::default() };
    let targets = vec![
        ApplyTarget { workflow_path: ".github/workflows/ci.yml".into(), line: 2 },
        ApplyTarget { workflow_path: ".github/workflows/ci.yml".into(), line: 9 },
    ];

    let unreadable = file_step(&report, ".github/workflows/ci.yml", &targets, Err("gone".into()), &config, false);
    assert_eq!((unreadable.applied.len(), unreadable.failures.len()), (0, 2));
    assert!(unreadable.failures.iter().all(|f| f.message == "gone"));
    assert!(unreadable.write.is_none());

    let content = "jobs:\n  build:\n".to_string();
    let step = file_step(&report, ".github/workflows/ci.yml", &targets, Ok(content), &config, false);
    assert_eq!(step.applied.len() + step.failures.len(), 2);

    let (applied, failures) = file_outcome(step, &targets, Err("disk full".into()));
    assert!(applied.is_empty());
    assert_eq!(failures.len(), 2);
    assert_eq!(failures[1].line, 9);
}
