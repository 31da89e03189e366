use actioneer::audit::report::{AuditFindingKind, audit_references};
use actioneer::audit::{finding_id_text, is_version_tag};
use actioneer::discovery::{DiscoveredActionRef, DiscoveryError, Target, TargetEntry, is_yaml, resolve_workflow_paths};
use actioneer::github::tags::{
    GitHubTag, keep_version_tags, next_link_url, offline_tags_message, sanitize, tags_cache_file, tags_url,
};
use actioneer::github::{
    CacheStep, GitHubError, after_cache_miss, first_step, points_at_tag_object, ref_url, release_url, releases_url,
    status_error, tag_object_url,
};
use actioneer::model::Action;
use actioneer::patch::patch_line;
use actioneer::rewrite::{RewriteError, rewrite_text, selected_runs};
use actioneer::syntax::{action_at, comment_version, extract_version};
use actioneer::tui::view::short_action;
use actioneer::discovery::ActionRef;
use actioneer::model::PinStyle;
use actioneer::update::{
    aged_target, candidate_for, is_branch_like_ref, newest_tag_for_level, newest_version_tag, parse_duration,
    update_target, version_key,
};
use actioneer::config::UpdateLevel;

fn tag(name: &str, sha: &str) -> GitHubTag {
    GitHubTag { name: name.into(), sha: sha.into() }
}

fn discovered(file: &str, line: usize, ref_name: &str) -> DiscoveredActionRef {
    DiscoveredActionRef {
        file: file.into(),
        line,
        owner: "actions".into(),
        name: "checkout".into(),
        repo: "actions/checkout".into(),
        path: String::new(),
        ref_name: ref_name.into(),
    }
}

fn action(contents: &str, current: &str, new_ref: &str, new_version: &str, comment: Option<&str>) -> Action {
    let start = contents.find(&format!("@{current}")).unwrap() + 1;
    Action {
        owner: "actions".into(),
        name: "checkout".into(),
        path: String::new(),
        current_ref: current.into(),
        version_comment: comment.map(str::to_string),
        file: "ci.yml".into(),
        line: 1,
        ref_start: start,
        ref_end: start + current.len(),
        new_ref: new_ref.into(),
        new_version: new_version.into(),
        expected_sha: String::new(),
        sha_mismatch: false,
        is_branch: false,
        is_major: false,
        needs_update: true,
    }
}

#[test]
fn cache_file_name_replaces_unsafe_characters() {
    assert_eq!(sanitize("my.org/repo"), "my-org-repo");
    assert_eq!(tags_cache_file("actions", "setup.node"), "actions--setup-node.json");
}

#[test]
fn next_link_is_found_among_several() {
    let header = "<https://api.github.com/x?page=1>; rel=\"prev\", <https://api.github.com/x?page=3>; rel=\"next\"";
    assert_eq!(next_link_url(header).as_deref(), Some("https://api.github.com/x?page=3"));
    assert_eq!(next_link_url("<https://api.github.com/x?page=1>; rel=\"last\""), None);
}

#[test]
fn only_version_tags_are_kept() {
    let kept = keep_version_tags(vec![tag("v1.2.0", "a"), tag("latest", "b"), tag("v", "c"), tag("v2", "d")]);
    let names: Vec<&str> = kept.iter().map(|t| t.name.as_str()).collect();
    assert_eq!(names, ["v1.2.0", "v2"]);
    assert!(is_version_tag("v4.1"));
    assert!(!is_version_tag("4.1"));
    assert!(!is_version_tag("v4-beta"));
}

#[test]
fn version_key_reads_each_part() {
    assert_eq!(version_key("v1.10.2"), vec![1, 10, 2]);
    assert_eq!(version_key("2.x"), vec![2, 0]);
}

#[test]
fn newest_tag_respects_update_level() {
    let tags = vec![tag("v1.2.0", "a"), tag("v2.0.0", "b"), tag("v1.3.1", "c"), tag("v1.2.5", "d")];
    assert_eq!(newest_version_tag(&tags), Some(1));
    assert_eq!(newest_tag_for_level(&tags, "v1.2.0", UpdateLevel::Major), Some(1));
    assert_eq!(newest_tag_for_level(&tags, "v1.2.0", UpdateLevel::Minor), Some(2));
    assert_eq!(newest_tag_for_level(&tags, "v1.2.0", UpdateLevel::Patch), Some(3));
    assert_eq!(newest_tag_for_level(&tags, "v3", UpdateLevel::Minor), None);
}

#[test]
fn branch_like_refs() {
    assert!(is_branch_like_ref("main"));
    assert!(!is_branch_like_ref("v4"));
    assert!(!is_branch_like_ref("abc123"));
    assert!(!is_branch_like_ref(&"a".repeat(40)));
}

#[test]
fn audit_numbers_unpinned_references() {
    let refs = vec![discovered("a.yml", 3, "v4"), discovered("a.yml", 7, &"f".repeat(40)), discovered("b.yml", 2, "main")];
    let report = audit_references(&refs);
    assert_eq!(report.references, 3);
    assert_eq!(report.findings.len(), 2);
    assert_eq!(report.findings[0].id, "finding-1");
    assert_eq!(report.findings[1].id, "finding-2");
    assert_eq!(report.findings[1].file, "b.yml");
    assert_eq!(report.findings[1].kind, AuditFindingKind::MutableRef);
    assert_eq!(report.fixable_count(), 2);
    assert!(!report.ok());
    assert_eq!(finding_id_text(12), "finding-12");
}

#[test]
fn workflow_targets_are_sorted_and_deduplicated() {
    let targets = vec![
        Target { given: "b.yml".into(), entry: TargetEntry::File("b.yml".into()) },
        Target {
            given: "wf".into(),
            entry: TargetEntry::Directory(Ok(vec!["wf/c.yaml".into(), "wf/notes.txt".into(), "b.yml".into()])),
        },
        Target { given: "a.yml".into(), entry: TargetEntry::File("a.yml".into()) },
    ];
    assert_eq!(resolve_workflow_paths(&targets, &None).unwrap(), vec!["a.yml", "b.yml", "wf/c.yaml"]);
}

#[test]
fn workflow_target_errors() {
    let missing = vec![Target { given: "nope.yml".into(), entry: TargetEntry::Missing }];
    assert_eq!(resolve_workflow_paths(&missing, &None), Err(DiscoveryError::NotFound { path: "nope.yml".into() }));
    let not_yaml = vec![Target { given: "x.txt".into(), entry: TargetEntry::File("x.txt".into()) }];
    assert_eq!(
        resolve_workflow_paths(&not_yaml, &None),
        Err(DiscoveryError::NotWorkflowFile { path: "x.txt".into() })
    );
    let other = vec![Target { given: "dev".into(), entry: TargetEntry::Other }];
    assert_eq!(
        resolve_workflow_paths(&other, &None),
        Err(DiscoveryError::NotFileOrDirectory { path: "dev".into() })
    );
    let unreadable = vec![Target { given: "wf".into(), entry: TargetEntry::Directory(Err("denied".into())) }];
    assert_eq!(resolve_workflow_paths(&unreadable, &None), Err(DiscoveryError::Io("denied".into())));
    assert_eq!(resolve_workflow_paths(&[], &None).unwrap(), Vec::<String>::new());
}

#[test]
fn yaml_extensions() {
    assert!(is_yaml("ci.yml"));
    assert!(is_yaml("dir/ci.yaml"));
    assert!(!is_yaml(".yml"));
    assert!(!is_yaml("ci.yml.bak"));
}

#[test]
fn version_word_is_taken_from_comment() {
    assert_eq!(extract_version("pinned to v4.2.0, see notes").as_deref(), Some("v4.2.0"));
    assert_eq!(extract_version("(V3.1)").as_deref(), Some("V3.1"));
    assert_eq!(extract_version("latest release"), None);
}

#[test]
fn rewrite_replaces_ref_and_comment() {
    let contents = "      - uses: actions/checkout@v4.1.0 # v4.1.0\n";
    let sha = "b".repeat(40);
    let a = action(contents, "v4.1.0", &sha, "v4.2.0", Some("v4.1.0"));
    let out = rewrite_text(contents, &[a]).unwrap();
    assert_eq!(out, format!("      - uses: actions/checkout@{sha} # v4.2.0\n"));
}

#[test]
fn rewrite_refuses_stale_target() {
    let contents = "      - uses: actions/checkout@v4.1.0\n";
    let mut a = action(contents, "v4.1.0", "v4.2.0", "v4.2.0", None);
    a.current_ref = "v4.0.0".into();
    assert_eq!(rewrite_text(contents, &[a]), Err(RewriteError::UpdateTargetNotFound));
}

#[test]
fn selected_actions_are_grouped_by_file() {
    let contents = "uses: actions/checkout@v4\n";
    let mut a = action(contents, "v4", "v5", "v5", None);
    let mut b = a.clone();
    let mut c = a.clone();
    a.file = "a.yml".into();
    b.file = "a.yml".into();
    c.file = "b.yml".into();
    let runs = selected_runs(&[a, b, c], &[0, 1, 2, 7]);
    assert_eq!(runs, vec![vec![0, 1], vec![2]]);
}

#[test]
fn patch_line_errors_name_the_place() {
    let mut lines = vec!["uses: actions/checkout@v4".to_string()];
    assert_eq!(
        patch_line(&mut lines, "ci.yml", 0, "x", "y"),
        Err("invalid patch line 0 in ci.yml".to_string())
    );
    assert_eq!(
        patch_line(&mut lines, "ci.yml", 3, "x", "y"),
        Err("cannot patch ci.yml:3 because the line no longer exists".to_string())
    );
    assert_eq!(
        patch_line(&mut lines, "ci.yml", 1, "actions/checkout@v3", "y"),
        Err("cannot patch ci.yml:1 because \"actions/checkout@v3\" is no longer present".to_string())
    );
    patch_line(&mut lines, "ci.yml", 1, "@v4", "@v5").unwrap();
    assert_eq!(lines, vec!["uses: actions/checkout@v5".to_string()]);
}

#[test]
fn cache_steps_follow_flags() {
    assert_eq!(first_step(false, true), CacheStep::ReadCache);
    assert_eq!(first_step(true, true), CacheStep::Fail(GitHubError::Offline));
    assert_eq!(first_step(true, false), CacheStep::Fetch);
    assert_eq!(after_cache_miss(true), CacheStep::Fail(GitHubError::Offline));
    assert_eq!(after_cache_miss(false), CacheStep::Fetch);
}

#[test]
fn short_action_drops_the_ref() {
    assert_eq!(short_action("actions/checkout@v4"), "actions/checkout");
    assert_eq!(short_action("./local"), "./local");
}

#[test]
fn human_audit_report_lists_each_finding() {
    let refs = vec![discovered("a.yml", 3, "v4"), discovered("b.yml", 9, &"f".repeat(40))];
    let report = audit_references(&refs);
    assert_eq!(report.human_report(), "a.yml:3: mutable_ref: actions/checkout@v4\n");
    assert_eq!(audit_references(&[]).human_report(), "No audit findings.\n");
}

#[test]
fn uses_scalar_locates_its_ref() {
    let a = action_at(" \"actions/setup-node@v4\"", 10, 4, Some("v4.0.0".into()), "ci.yml").unwrap();
    assert_eq!((a.owner.as_str(), a.name.as_str(), a.path.as_str()), ("actions", "setup-node", ""));
    assert_eq!(a.current_ref, "v4");
    assert_eq!(a.line, 5);
    assert_eq!((a.ref_start, a.ref_end), (31, 33));
    assert_eq!(a.version_comment.as_deref(), Some("v4.0.0"));
    assert!(action_at("./local-action", 0, 0, None, "ci.yml").is_none());
}

#[test]
fn comment_names_a_version() {
    assert_eq!(comment_version("# v4.1.0").as_deref(), Some("v4.1.0"));
    assert_eq!(comment_version("##"), None);
    assert_eq!(comment_version("# pinned"), None);
}

fn action_ref(ref_name: &str) -> ActionRef {
    ActionRef {
        file: "ci.yml".into(),
        line: 4,
        owner: "actions".into(),
        name: "checkout".into(),
        repo: "actions/checkout".into(),
        path: String::new(),
        ref_name: ref_name.into(),
        version_comment: None,
    }
}

#[test]
fn update_candidates_follow_level_age_and_pin() {
    let tags = vec![tag("v1.2.0", "a1"), tag("v2.0.0", "b2"), tag("v1.3.1", "c3")];
    assert_eq!(update_target(&tags, "v1.2.0", None), Some(1));
    assert_eq!(update_target(&tags, "v1.2.0", Some(UpdateLevel::Minor)), Some(2));
    assert_eq!(aged_target(&tags, 1, &[true, false, true]), 2);
    assert_eq!(aged_target(&tags, 1, &[true, true, false]), 1);
    assert_eq!(aged_target(&tags, 1, &[false, false, false]), 1);

    let c = candidate_for(&action_ref("v1"), &tags[2], PinStyle::Sha, 0).unwrap();
    assert_eq!(c.id, "update-1");
    assert_eq!(c.target_ref, "c3");
    assert_eq!(c.version, "v1.3.1");
    assert_eq!(c.notes, vec!["mutable_ref"]);
    assert!(candidate_for(&action_ref("v1.3.1"), &tags[2], PinStyle::Tag, 4).is_none());
}

#[test]
fn release_age_durations() {
    assert_eq!(parse_duration(" 7d "), Some(7 * 86400));
    assert_eq!(parse_duration("90m"), Some(5400));
    assert_eq!(parse_duration("2h"), Some(7200));
    assert_eq!(parse_duration("+3d"), Some(3 * 86400));
    assert_eq!(parse_duration("7w"), None);
    assert_eq!(parse_duration("d"), None);
    assert_eq!(parse_duration(""), None);
}

#[test]
fn legacy_tags_requests() {
    assert_eq!(
        tags_url("https://api.github.com//", "actions", "checkout"),
        "https://api.github.com/repos/actions/checkout/tags?per_page=100&page=1"
    );
    assert_eq!(
        offline_tags_message("actions", "checkout"),
        "offline mode requires cached GitHub tag data for actions/checkout, but no cache entry was found"
    );
}

#[test]
fn api_addresses_and_status_errors() {
    let base = "https://api.github.com";
    assert_eq!(
        releases_url(base, "actions", "checkout", 2),
        "https://api.github.com/repos/actions/checkout/releases?per_page=100&page=2"
    );
    assert_eq!(
        ref_url(base, "actions", "checkout", "tags/v4"),
        "https://api.github.com/repos/actions/checkout/git/ref/tags/v4"
    );
    assert_eq!(tag_object_url(base, "o", "r", "abc"), "https://api.github.com/repos/o/r/git/tags/abc");
    assert_eq!(release_url(base, "o", "r", "v1"), "https://api.github.com/repos/o/r/releases/tags/v1");
    assert!(points_at_tag_object("tag"));
    assert!(!points_at_tag_object("commit"));
    let nf = GitHubError::NotFound { owner: "o".into(), repo: "r".into(), git_ref: "v1".into() };
    assert_eq!(status_error(404, nf.clone()), nf);
    assert_eq!(status_error(429, nf.clone()), GitHubError::RateLimited);
    assert_eq!(status_error(500, nf), GitHubError::Http { status: 500, message: String::new() });
}
