use actioneer::config::{ActioneerConfig, PinMode};
use actioneer::discovery::ActionRef;
use actioneer::model::{PinStyle, ResolvedUpdate};
use actioneer::tui::checklist::{ChecklistKey, key_for_char, row_parts};
use actioneer::update::Candidate;
use actioneer::engine::{ActionReference, CommentMatch, PinKind, ReferenceKind};
use actioneer::github::{RefKind, ResolvedRef};
use actioneer::model::Action;
use actioneer::prompt::rows::{Piece, Tone, h_offset, list_rows, list_title, scroll_pieces};
use actioneer::prompt::{Error as PickerError, Key, Press, State, VisibleRow, cursor_file, visible_rows};
use actioneer::scan::{
    LocatedReference, PlanReason, PlannedChange, ReferenceReport, ResolvedReference, ScanReport, ScanStats,
    WorkflowReport,
};
use actioneer::tui::app::App;
use actioneer::tui::checklist::SelectionState;
use actioneer::tui::selection::{SelectableItem, WorkflowGroup, from_report};
use actioneer::tui::view::{DisplayRow, ListView, move_focus};
use actioneer::tui::{TerminalOps, TerminalSession};
use std::cell::RefCell;
use std::rc::Rc;

fn item(line: u32, action: &str, from: &str, to: &str, selected: bool) -> SelectableItem {
    SelectableItem {
        line,
        action: action.into(),
        from_label: from.into(),
        to_label: to.into(),
        selected,
    }
}

fn sample_groups() -> Vec<WorkflowGroup> {
    vec![
        WorkflowGroup {
            workflow_path: "main.yml".into(),
            collapsed: false,
            items: vec![
                item(1, "actions/checkout@v4", "v4", "v4.2.0", false),
                item(2, "actions/setup-go@v5", "v5", "v5.2.0", false),
            ],
        },
        WorkflowGroup {
            workflow_path: "pr.yml".into(),
            collapsed: true,
            items: vec![item(3, "azure/setup-helm@v4", "v4", "v4.2.0", false)],
        },
    ]
}

#[test]
fn rebuild_inserts_spacer_and_hides_collapsed_actions() {
    let view = ListView::rebuild(&sample_groups());
    assert_eq!(
        view.rows,
        vec![
            DisplayRow::GroupHeader(0),
            DisplayRow::Spacer,
            DisplayRow::Action { group: 0, item: 0 },
            DisplayRow::Action { group: 0, item: 1 },
            DisplayRow::Spacer,
            DisplayRow::Spacer,
            DisplayRow::GroupHeader(1),
        ]
    );
}

#[test]
fn focusable_skips_spacers() {
    let view = ListView::rebuild(&sample_groups());
    let focusable = view.focusable_row_indices();
    assert!(!focusable.is_empty());
    assert!(view.rows[focusable[0]].is_focusable());
    for &idx in &focusable {
        assert_ne!(view.rows[idx], DisplayRow::Spacer);
    }
}

#[test]
fn move_focus_clamps_at_bounds() {
    let focusable = vec![0, 2, 4];
    assert_eq!(move_focus(&focusable, 0, -1), 0);
    assert_eq!(move_focus(&focusable, 2, 1), 2);
}

fn planned_reference(path: &str, raw: &str, repo: &str, git_ref: &str, job: &str, step: usize, line: u32, to: &str) -> ReferenceReport {
    ReferenceReport {
        resolved: ResolvedReference {
            located: LocatedReference {
                workflow_path: path.into(),
                reference: ActionReference {
                    raw: raw.into(),
                    kind: ReferenceKind::Action,
                    pin_kind: PinKind::Tag,
                    owner: Some("actions".into()),
                    repo: Some(repo.into()),
                    subpath: None,
                    git_ref: Some(git_ref.into()),
                    step_name: None,
                    job_id: job.into(),
                    job_name: None,
                    step_index: Some(step),
                    line: Some(line),
                    line_comment: None,
                },
            },
            current: ResolvedRef { sha: "a".repeat(40), ref_kind: RefKind::Tag, published_at: None },
            comment_match: CommentMatch::NoComment,
        },
        issues: vec![],
        planned: Some(PlannedChange {
            from_ref: git_ref.into(),
            to_ref: to.into(),
            from_version: Some(git_ref.into()),
            to_sha: "b".repeat(40),
            to_comment: None,
            reason: PlanReason::SemverBump { level: "minor".into() },
        }),
    }
}

fn sample_report() -> ScanReport {
    ScanReport {
        workflows: vec![WorkflowReport {
            path: ".github/workflows/ci.yml".into(),
            name: Some("CI".into()),
            references: vec![planned_reference(
                ".github/workflows/ci.yml",
                "actions/checkout@v4",
                "checkout",
                "v4",
                "build",
                0,
                10,
                "v4.2.0",
            )],
        }],
        stats: ScanStats { workflows: 1, references: 1, planned: 1, ..Default::default() },
    }
}

fn tag_config() -> ActioneerConfig {
    ActioneerConfig { pin: PinMode::Tag, ..Default::default() }
}

#[test]
fn from_report_starts_unselected() {
    let groups = from_report(&sample_report(), &tag_config());
    assert_eq!(groups.len(), 1);
    assert_eq!(groups[0].items.len(), 1);
    assert!(!groups[0].items[0].selected);
    assert_eq!(groups[0].items[0].to_label, "v4.2.0");
}

#[test]
fn from_report_merges_items_in_same_workflow() {
    let mut report = sample_report();
    report.workflows[0].references.push(planned_reference(
        ".github/workflows/ci.yml",
        "actions/setup-node@v3",
        "setup-node",
        "v3",
        "lint",
        1,
        12,
        "v4.2.0",
    ));
    report.stats.planned = 2;
    let groups = from_report(&report, &tag_config());
    assert_eq!(groups.len(), 1);
    assert_eq!(groups[0].items.len(), 2);
}

#[test]
fn from_report_splits_different_workflows() {
    let mut report = sample_report();
    report.workflows.push(WorkflowReport {
        path: ".github/workflows/lint.yml".into(),
        name: Some("Lint".into()),
        references: vec![planned_reference(
            ".github/workflows/lint.yml",
            "actions/setup-node@v3",
            "setup-node",
            "v3",
            "lint",
            0,
            5,
            "v4.2.0",
        )],
    });
    report.stats.planned = 2;
    let groups = from_report(&report, &tag_config());
    assert_eq!(groups.len(), 2);
}

#[test]
fn spinner_cycles() {
    let mut app = App::new(ActioneerConfig::default(), Vec::new());
    let first = app.spinner();
    for _ in 0..10 {
        app.on_tick();
    }
    assert_eq!(app.spinner(), first);
}

#[test]
fn toggle_and_select_all_none() {
    let mut app = App::new(ActioneerConfig::default(), Vec::new());
    app.groups = vec![WorkflowGroup {
        workflow_path: "ci.yml".into(),
        collapsed: false,
        items: vec![
            item(10, "actions/checkout@v4", "v4", "v4.2.0", true),
            item(11, "actions/setup-node@v4", "v4", "v4.1.0", true),
        ],
    }];
    app.rebuild_list();
    app.focus_index = 1;
    app.toggle_current();
    assert_eq!(app.selected_count(), 1);

    app.select_all();
    assert_eq!(app.selected_count(), 2);

    app.select_none();
    assert_eq!(app.selected_count(), 0);
    let _ = app.apply_selected();
    assert_eq!(app.status_banner.as_deref(), Some("Select at least one update (Space to toggle)."));
}

#[test]
fn toggle_header_collapses_group() {
    let mut app = App::new(ActioneerConfig::default(), Vec::new());
    app.groups = vec![WorkflowGroup {
        workflow_path: "ci.yml".into(),
        collapsed: false,
        items: vec![item(10, "actions/checkout@v4", "v4", "v4.2.0", false)],
    }];
    app.rebuild_list();
    assert!(app.list_view.rows.iter().any(|r| matches!(r, DisplayRow::Action { .. })));

    app.focus_index = 0;
    app.toggle_current();
    assert!(app.groups[0].collapsed);
    assert!(!app.list_view.rows.iter().any(|r| matches!(r, DisplayRow::Action { .. })));
}

#[test]
fn selection_state_defaults_to_all_selected() {
    let state = SelectionState::new(3);
    assert_eq!(state.selected_indexes(), vec![0, 1, 2]);
}

#[test]
fn selection_state_toggles_current() {
    let mut state = SelectionState::new(3);
    state.toggle_current();
    assert_eq!(state.selected_indexes(), vec![1, 2]);
    state.move_down();
    state.toggle_current();
    assert_eq!(state.selected_indexes(), vec![2]);
}

fn mk_action(file: &str, name: &str) -> Action {
    Action::from_scan(
        "actions".into(),
        name.into(),
        String::new(),
        "v1.0.0".into(),
        Some("1.0.0".into()),
        file.into(),
        10,
        20,
        26,
    )
}

#[test]
fn state_new_defaults() {
    let s = State::new(3);
    assert_eq!(vec![false, false, false], s.selected);
    assert_eq!(0, s.cursor);
    assert_eq!(0, s.h_scroll);
}

#[test]
fn state_new_zero() {
    let s = State::new(0);
    assert!(s.selected.is_empty());
}

#[test]
fn selected_indices_none() {
    let s = State::new(4);
    assert_eq!(Vec::<usize>::new(), s.selected_indices());
}

#[test]
fn selected_indices_some() {
    let mut s = State::new(4);
    s.selected = vec![false, true, false, true];
    assert_eq!(vec![1, 3], s.selected_indices());
}

#[test]
fn selected_indices_all() {
    let mut s = State::new(3);
    s.selected = vec![true, true, true];
    assert_eq!(vec![0, 1, 2], s.selected_indices());
}

#[test]
fn visible_rows_single_file_two_actions() {
    let actions = vec![mk_action("a.yml", "checkout"), mk_action("a.yml", "setup-node")];
    let rows = visible_rows(&actions, &[]);
    assert_eq!(3, rows.len());
    assert!(matches!(&rows[0], VisibleRow::FileHeader { file } if file == "a.yml"));
    assert!(matches!(&rows[1], VisibleRow::Update { .. }));
    assert!(matches!(&rows[2], VisibleRow::Update { .. }));
}

#[test]
fn visible_rows_two_files() {
    let actions = vec![mk_action("a.yml", "c1"), mk_action("b.yml", "c2")];
    let rows = visible_rows(&actions, &[]);
    assert_eq!(4, rows.len());
}

#[test]
fn visible_rows_collapsed_hides_updates() {
    let actions = vec![mk_action("a.yml", "c1"), mk_action("a.yml", "c2")];
    let collapsed = vec!["a.yml".to_string()];
    let rows = visible_rows(&actions, &collapsed);
    assert_eq!(1, rows.len());
    assert!(matches!(&rows[0], VisibleRow::FileHeader { file } if file == "a.yml"));
}

#[test]
fn visible_rows_all_collapsed_only_headers() {
    let actions = vec![mk_action("a.yml", "c1"), mk_action("b.yml", "c2")];
    let collapsed = vec!["a.yml".to_string(), "b.yml".to_string()];
    let rows = visible_rows(&actions, &collapsed);
    assert_eq!(2, rows.len());
}

#[test]
fn cursor_file_on_header() {
    let actions = vec![mk_action("a.yml", "c1")];
    let visible = visible_rows(&actions, &[]);
    assert_eq!("a.yml", cursor_file(&visible, 0, &actions));
}

#[test]
fn cursor_file_on_update() {
    let actions = vec![mk_action("f.yml", "c1")];
    let visible = visible_rows(&actions, &[]);
    assert_eq!("f.yml", cursor_file(&visible, 1, &actions));
}

#[test]
fn cursor_file_out_of_bounds() {
    let visible: Vec<VisibleRow> = vec![];
    assert_eq!("", cursor_file(&visible, 99, &[]));
}

#[derive(Debug)]
struct FakeTerminalOps {
    calls: Rc<RefCell<Vec<&'static str>>>,
    fail_enter_alternate: bool,
    fail_leave_alternate: bool,
}

impl TerminalOps for FakeTerminalOps {
    fn enable_raw_mode(&mut self) -> Result<(), String> {
        self.calls.borrow_mut().push("enable-raw");
        Ok(())
    }

    fn enter_alternate_screen(&mut self) -> Result<(), String> {
        self.calls.borrow_mut().push("enter-alternate");
        if self.fail_enter_alternate { Err("enter failed".to_string()) } else { Ok(()) }
    }

    fn leave_alternate_screen(&mut self) -> Result<(), String> {
        self.calls.borrow_mut().push("leave-alternate");
        if self.fail_leave_alternate { Err("leave failed".to_string()) } else { Ok(()) }
    }

    fn disable_raw_mode(&mut self) -> Result<(), String> {
        self.calls.borrow_mut().push("disable-raw");
        Ok(())
    }
}

#[test]
fn alternate_screen_setup_failure_restores_raw_mode() {
    let calls = Rc::new(RefCell::new(Vec::new()));
    let ops = FakeTerminalOps { calls: Rc::clone(&calls), fail_enter_alternate: true, fail_leave_alternate: false };

    let result = TerminalSession::enter(ops);

    assert!(result.is_err());
    assert_eq!(*calls.borrow(), ["enable-raw", "enter-alternate", "disable-raw"]);
}

#[test]
fn explicit_restore_is_not_repeated_on_drop() {
    let calls = Rc::new(RefCell::new(Vec::new()));
    let ops = FakeTerminalOps { calls: Rc::clone(&calls), fail_enter_alternate: false, fail_leave_alternate: false };
    let mut session = TerminalSession::enter(ops).unwrap();

    session.restore().unwrap();
    drop(session);

    assert_eq!(*calls.borrow(), ["enable-raw", "enter-alternate", "leave-alternate", "disable-raw"]);
}

#[test]
fn restore_attempts_raw_cleanup_after_alternate_screen_error() {
    let calls = Rc::new(RefCell::new(Vec::new()));
    let ops = FakeTerminalOps { calls: Rc::clone(&calls), fail_enter_alternate: false, fail_leave_alternate: true };
    let mut session = TerminalSession::enter(ops).unwrap();

    let error = session.restore().unwrap_err();

    assert_eq!(error.to_string(), "leave failed");
    assert_eq!(*calls.borrow(), ["enable-raw", "enter-alternate", "leave-alternate", "disable-raw"]);
}

fn texts(row: &[Piece]) -> Vec<(&str, Tone)> {
    row.iter().map(|p| (p.text.as_str(), p.tone)).collect()
}

#[test]
fn picker_rows_are_aligned_and_annotated() {
    let mut a = mk_action("ci.yml", "checkout");
    a.new_ref = "v1.1.0".into();
    a.new_version = "v1.1.0".into();
    let mut b = mk_action("ci.yml", "setup-node");
    b.new_ref = "abcdef1234567890abcdef1234567890abcdef12".into();
    b.new_version = "v2.0.0".into();
    b.is_major = true;
    let actions = vec![a, b];
    let mut state = State::new(2);
    state.selected[0] = true;
    let visible = visible_rows(&actions, &[]);

    let rows = list_rows(&actions, &visible, &state, 120);

    assert_eq!(rows.len(), 3);
    assert_eq!(texts(&rows[0]), vec![("\u{25be} ", Tone::Accent), ("[1/2] ", Tone::GoodBold), ("ci.yml", Tone::AccentBold)]);
    assert_eq!(
        texts(&rows[1]),
        vec![
            ("  ", Tone::Plain),
            ("[x]", Tone::Good),
            (" ", Tone::Plain),
            ("actions/checkout  ", Tone::Bold),
            ("  ", Tone::Plain),
            ("v1.0.0 -> v1.1.0", Tone::Good),
            ("  ", Tone::Plain),
            ("ci.yml:10", Tone::Muted),
            ("#", Tone::Muted),
            ("1.0.0", Tone::Info),
            (" ", Tone::Plain),
        ]
    );
    assert_eq!(
        texts(&rows[2]),
        vec![
            ("  ", Tone::Plain),
            ("[ ]", Tone::Muted),
            (" ", Tone::Plain),
            ("actions/setup-node", Tone::Bold),
            ("  ", Tone::Plain),
            ("v1.0.0 -> v2.0.0", Tone::Alert),
            ("  ", Tone::Plain),
            ("ci.yml:10", Tone::Muted),
            ("  ", Tone::Plain),
            ("@abcdef1", Tone::Info),
            (" ", Tone::Plain),
            ("#", Tone::Muted),
            ("1.0.0", Tone::Info),
            (" ", Tone::Plain),
            ("major", Tone::Alert),
        ]
    );
    assert_eq!(list_title(&state, actions.len()), " Updates \u{2014} 1/2 selected ");
}

#[test]
fn picker_scrolls_sideways_within_the_widest_row() {
    let row = vec![
        Piece { text: "ab".into(), tone: Tone::Plain },
        Piece { text: "cde".into(), tone: Tone::Bold },
    ];
    assert_eq!(texts(&scroll_pieces(row.clone(), 3)), vec![("de", Tone::Bold)]);
    assert_eq!(texts(&scroll_pieces(row.clone(), 2)), vec![("cde", Tone::Bold)]);
    assert_eq!(texts(&scroll_pieces(row, 0)), vec![("ab", Tone::Plain), ("cde", Tone::Bold)]);
    assert_eq!(h_offset(10, 50, 42), 10);
    assert_eq!(h_offset(30, 50, 42), 10);
    assert_eq!(h_offset(5, 10, 80), 0);
}

#[test]
fn checklist_keys_and_rows() {
    let mut state = SelectionState::new(2);
    assert_eq!(state.on_key(key_for_char('j')), None);
    assert_eq!(state.cursor, 1);
    assert_eq!(state.on_key(key_for_char(' ')), None);
    assert_eq!(state.on_key(ChecklistKey::Confirm), Some(vec![0]));
    assert_eq!(state.on_key(key_for_char('n')), None);
    assert_eq!(state.on_key(key_for_char('x')), None);
    assert_eq!(state.on_key(key_for_char('q')), Some(vec![]));

    let candidate = Candidate {
        id: "update-1".into(),
        action: ActionRef {
            file: ".github/workflows/ci.yml".into(),
            line: 7,
            owner: "actions".into(),
            name: "checkout".into(),
            repo: "actions/checkout".into(),
            path: String::new(),
            ref_name: "v4".into(),
            version_comment: None,
        },
        target_ref: "abc123".into(),
        version: "v4.2.2".into(),
        sha: "abc123".into(),
        pin: PinStyle::Sha,
        notes: vec!["mutable_ref"],
    };
    let (marker, text) = row_parts(&candidate, true, false);
    assert_eq!(marker, ">[ ] ");
    assert_eq!(text, ".github/workflows/ci.yml:7 actions/checkout@v4 -> abc123 v4.2.2 (mutable_ref)");
}

#[test]
fn picker_keys() {
    assert_eq!(actioneer::prompt::key_of(Press::Char('j'), false), Ok(Key::Down));
    assert_eq!(actioneer::prompt::key_of(Press::Left, false), Ok(Key::ScrollLeft));
    assert_eq!(actioneer::prompt::key_of(Press::Char('c'), true), Err(PickerError::Interrupted));
    assert_eq!(actioneer::prompt::key_of(Press::Char('c'), false), Ok(Key::Ignore));
    assert_eq!(actioneer::ui::prompt::key_of(Press::Left, false), Ok(actioneer::ui::prompt::Key::Ignore));
    assert_eq!(actioneer::ui::prompt::key_of(Press::Esc, false), Ok(actioneer::ui::prompt::Key::Cancel));
}

#[test]
fn update_list_items_show_origin_target_and_notes() {
    let u = ResolvedUpdate {
        action: "actions/checkout".into(),
        job: "build".into(),
        current: "v3".into(),
        current_ref: "0123456789abcdef".into(),
        version_comment: "v3.1.0".into(),
        sha_mismatch: true,
        next: "v4".into(),
        next_label: String::new(),
        file: "ci.yml".into(),
        line: 3,
        ref_start: 0,
        ref_end: 0,
        next_is_major: true,
    };
    let lines = actioneer::ui::prompt::update_item_lines(&u, true, true, false);
    let shown: Vec<Vec<(&str, Tone)>> = lines.iter().map(|l| texts(l)).collect();
    assert_eq!(shown[0], vec![("\u{25b8} ", Tone::Accent), ("ci.yml", Tone::AccentBold)]);
    assert_eq!(shown[1], vec![("\u{25cf}", Tone::Good), (" ", Tone::Plain), ("actions/checkout", Tone::Bold)]);
    assert_eq!(
        shown[2],
        vec![
            ("    ", Tone::Plain),
            ("from ", Tone::Muted),
            ("v3", Tone::Warn),
            (" (", Tone::Muted),
            ("v3.1.0", Tone::Info),
            (")", Tone::Muted),
        ]
    );
    assert_eq!(shown[3], vec![("    ", Tone::Plain), ("to ", Tone::Muted), ("v4", Tone::Warn)]);
    assert_eq!(
        shown[4],
        vec![("    ", Tone::Plain), ("job ", Tone::Muted), ("build", Tone::Plain), ("  expected ", Tone::Muted), ("0123456", Tone::Warn)]
    );
    let folded = actioneer::ui::prompt::folded_file_lines("ci.yml");
    assert_eq!(texts(&folded[1]), vec![("  \u{22ef} ", Tone::Muted), ("collapsed", Tone::Muted)]);
}
