use actioneer::engine::parse::extract_uses_comment;
use actioneer::engine::reference::{classify_ref, parse_uses};
use actioneer::engine::uses_line::{QuoteStyle, join, split};
use actioneer::engine::{PinKind, ReferenceKind};

#[test]
fn classify_full_sha() {
    assert_eq!(classify_ref("a81bbbf8298c0fa03ea29cdc473d45769f953675"), PinKind::FullSha);
}

#[test]
fn classify_short_sha() {
    assert_eq!(classify_ref("abc1234"), PinKind::ShortSha);
    assert_eq!(classify_ref("abc1234def5678a"), PinKind::ShortSha);
}

#[test]
fn classify_tag_v_prefix() {
    assert_eq!(classify_ref("v4"), PinKind::Tag);
    assert_eq!(classify_ref("v1.2.3"), PinKind::Tag);
    assert_eq!(classify_ref("v2.0.0-rc1"), PinKind::Tag);
}

#[test]
fn classify_branch() {
    assert_eq!(classify_ref("main"), PinKind::Branch);
    assert_eq!(classify_ref("master"), PinKind::Branch);
    assert_eq!(classify_ref("feature/my-feature"), PinKind::Branch);
    assert_eq!(classify_ref("HEAD"), PinKind::Branch);
}

#[test]
fn parse_standard_action_tag() {
    let p = parse_uses("actions/checkout@v4");
    assert_eq!(p.kind, ReferenceKind::Action);
    assert_eq!(p.pin_kind, PinKind::Tag);
    assert_eq!(p.owner.as_deref(), Some("actions"));
    assert_eq!(p.repo.as_deref(), Some("checkout"));
    assert_eq!(p.git_ref.as_deref(), Some("v4"));
    assert!(p.subpath.is_none());
}

#[test]
fn parse_action_full_sha() {
    let p = parse_uses("actions/checkout@a81bbbf8298c0fa03ea29cdc473d45769f953675");
    assert_eq!(p.pin_kind, PinKind::FullSha);
    assert_eq!(p.git_ref.as_deref(), Some("a81bbbf8298c0fa03ea29cdc473d45769f953675"));
}

#[test]
fn parse_nested_action() {
    let p = parse_uses("actions/aws-actions/amazon-ecr-login@v2");
    assert_eq!(p.kind, ReferenceKind::Action);
    assert_eq!(p.owner.as_deref(), Some("actions"));
    assert_eq!(p.repo.as_deref(), Some("aws-actions"));
    assert_eq!(p.subpath.as_deref(), Some("amazon-ecr-login"));
    assert_eq!(p.git_ref.as_deref(), Some("v2"));
}

#[test]
fn parse_local_action() {
    let p = parse_uses("./my-local-action");
    assert_eq!(p.kind, ReferenceKind::LocalAction);
    assert_eq!(p.pin_kind, PinKind::Unpinned);
    assert!(p.owner.is_none());
    assert!(p.repo.is_none());
    assert_eq!(p.subpath.as_deref(), Some("./my-local-action"));
}

#[test]
fn parse_local_reusable_workflow() {
    let p = parse_uses("./.github/workflows/deploy.yml");
    assert_eq!(p.kind, ReferenceKind::ReusableWorkflow);
    assert_eq!(p.pin_kind, PinKind::Unpinned);
}

#[test]
fn parse_local_reusable_workflow_with_ref() {
    let p = parse_uses("./.github/workflows/deploy.yml@main");
    assert_eq!(p.kind, ReferenceKind::ReusableWorkflow);
    assert_eq!(p.pin_kind, PinKind::Branch);
    assert_eq!(p.git_ref.as_deref(), Some("main"));
}

#[test]
fn parse_remote_reusable_workflow() {
    let p = parse_uses("octo-org/octo-repo/.github/workflows/workflow.yml@v1");
    assert_eq!(p.kind, ReferenceKind::ReusableWorkflow);
    assert_eq!(p.owner.as_deref(), Some("octo-org"));
    assert_eq!(p.repo.as_deref(), Some("octo-repo"));
    assert_eq!(p.subpath.as_deref(), Some(".github/workflows/workflow.yml"));
    assert_eq!(p.pin_kind, PinKind::Tag);
}

#[test]
fn parse_docker_image() {
    let p = parse_uses("docker://alpine:3.14");
    assert_eq!(p.kind, ReferenceKind::Docker);
    assert_eq!(p.pin_kind, PinKind::Unpinned);
    assert_eq!(p.subpath.as_deref(), Some("alpine:3.14"));
    assert!(p.git_ref.is_none());
}

#[test]
fn split_unquoted_with_comment() {
    let line = "        uses: actions/checkout@v4 # v4.2.0";
    let parts = split(line).unwrap();
    assert_eq!(parts.head, "        uses: ");
    assert_eq!(parts.value, "actions/checkout@v4");
    assert_eq!(parts.comment.as_deref(), Some("v4.2.0"));
    assert_eq!(parts.quote, QuoteStyle::Unquoted);
}

#[test]
fn join_preserves_indent_and_comment() {
    let line = split("      - uses: actions/checkout@v4 # v4").unwrap();
    let rebuilt = join(&line, "actions/checkout@v4.2.0", Some("v4.2.0"));
    assert_eq!(rebuilt, "      - uses: actions/checkout@v4.2.0 # v4.2.0");
}

#[test]
fn split_sha_with_tag_comment() {
    let line = "        uses: actions/checkout@aaaa # v6.0.3";
    let parts = split(line).unwrap();
    assert_eq!(parts.value, "actions/checkout@aaaa");
    assert_eq!(parts.comment.as_deref(), Some("v6.0.3"));
}

#[test]
fn extract_unquoted_no_comment() {
    let (val, comment) = extract_uses_comment("  actions/checkout@v4");
    assert_eq!(val, "actions/checkout@v4");
    assert!(comment.is_none());
}

#[test]
fn extract_unquoted_with_comment() {
    let (val, comment) = extract_uses_comment("  actions/checkout@v4 # v4.2.0");
    assert_eq!(val, "actions/checkout@v4");
    assert_eq!(comment.as_deref(), Some("v4.2.0"));
}

#[test]
fn extract_unquoted_empty_comment() {
    let (val, comment) = extract_uses_comment("  actions/checkout@v4 #");
    assert_eq!(val, "actions/checkout@v4");
    assert!(comment.is_none());
}

#[test]
fn extract_double_quoted_with_comment() {
    let (val, comment) = extract_uses_comment(r#"  "actions/checkout@v4" # v4.2.0"#);
    assert_eq!(val, "actions/checkout@v4");
    assert_eq!(comment.as_deref(), Some("v4.2.0"));
}

#[test]
fn extract_single_quoted_with_comment() {
    let (val, comment) = extract_uses_comment("  'actions/checkout@v4' # v4.2.0");
    assert_eq!(val, "actions/checkout@v4");
    assert_eq!(comment.as_deref(), Some("v4.2.0"));
}

#[test]
fn extract_sha_with_tag_comment() {
    let (val, comment) =
        extract_uses_comment("  actions/checkout@a81bbbf8298c0fa03ea29cdc473d45769f953675 # v4.2.0");
    assert_eq!(val, "actions/checkout@a81bbbf8298c0fa03ea29cdc473d45769f953675");
    assert_eq!(comment.as_deref(), Some("v4.2.0"));
}
