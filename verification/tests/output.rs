use actioneer::actions::{ActionReference, ActionUpdate};
use actioneer::ansi::Colors;
use actioneer::cmd::default_inputs;
use actioneer::github::encode_ref;
use actioneer::logger::strip_ansi;
use actioneer::terminal::{self, sha_mismatch_line};

#[test]
fn disabled_passthrough() {
    let c = Colors { enabled: false };
    assert_eq!(c.workflow("ci.yml"), "ci.yml");
    assert_eq!(c.to("v4"), "v4");
}

#[test]
fn enabled_wraps_codes() {
    let c = Colors { enabled: true };
    assert_eq!(c.to("v4"), "\x1b[32mv4\x1b[0m");
    assert_eq!(c.from("v3"), "\x1b[90mv3\x1b[0m");
}

#[test]
fn empty_recursive_defaults_to_dot() {
    assert_eq!(vec!["."], default_inputs(vec![], true));
}

#[test]
fn empty_non_recursive_defaults_to_github() {
    assert_eq!(vec![".github"], default_inputs(vec![], false));
}

#[test]
fn explicit_inputs_returned_verbatim() {
    assert_eq!(vec!["ci.yml"], default_inputs(vec!["ci.yml".into()], true));
}

#[test]
fn encode_simple_tag() {
    assert_eq!(encode_ref("v4"), "v4");
    assert_eq!(encode_ref("v1.2.3"), "v1.2.3");
}

#[test]
fn encode_branch_with_slash() {
    assert_eq!(encode_ref("feature/foo"), "feature%2Ffoo");
}

#[test]
fn strip_ansi_removes_escape_sequences() {
    assert_eq!("hello world", strip_ansi("\x1b[31mhello\x1b[0m \x1b[1mworld\x1b[0m"));
}

fn action_update(current_ref: &str, version_comment: Option<&str>, expected_sha: &str) -> ActionUpdate {
    ActionUpdate {
        action: ActionReference {
            owner: "actions".into(),
            name: "checkout".into(),
            path: String::new(),
            current_ref: current_ref.into(),
            version_comment: version_comment.map(str::to_string),
            file: ".github/workflows/ci.yaml".into(),
            line: 37,
            ref_start: 0,
            ref_end: 0,
        },
        new_ref: expected_sha.into(),
        new_version: "v6.0.3".into(),
        expected_sha: expected_sha.into(),
        sha_mismatch: true,
        is_branch: false,
        is_major: false,
    }
}

#[test]
fn sha_mismatch_line_includes_comment_and_expected_sha() {
    let action = action_update(
        "de0fac2e4500dabe0009e67214ff5f5447ce83dd",
        Some("v6.0.2"),
        "df4cb1c069e1874edd31b4311f1884172cec0e10",
    );
    assert_eq!(
        "actions/checkout at .github/workflows/ci.yaml:37 uses de0fac2e4500dabe0009e67214ff5f5447ce83dd but says v6.0.2; expected df4cb1c069e1",
        terminal::strip_ansi(&sha_mismatch_line(&action))
    );
}
