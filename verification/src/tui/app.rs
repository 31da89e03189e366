//! The state of the interactive update selection and how it answers keys,
//! ticks and the end of the scan.
//!
//! The scan itself, the terminal and the files are the caller's: it hands
//! the scan's outcome to [`App::poll_scan`], and applies the targets that
//! [`App::apply_selected`] returns.
use vstd::prelude::*;

use crate::config::ActioneerConfig;
use crate::scan::apply::labels_ok;
use crate::scan::types::{ApplyReport, ApplyTarget, ScanReport, flat_planned};

use super::selection::{GroupView, ItemView, WorkflowGroup, SelectableItem, from_report, group_views, groups_of};
use super::view::{
    DisplayRow, ListView, clamp, focusable_of, focus_to_row, lemma_focusable_of, move_focus, rows_of,
    scroll_for_focus,
};

verus! {

/// Where the background scan stands.
#[derive(Debug, Clone, Copy, PartialEq, Eq, Structural)]
pub enum ScanPhase {
    Scanning,
    Ready,
    Failed,
}

/// What the caller saw of the background scan when it polled.
#[derive(Debug)]
pub enum ScanEvent {
    /// No outcome yet.
    Pending,
    /// The scan finished with this report.
    Finished(ScanReport),
    /// The scan failed with this message.
    Failed(String),
    /// The scan worker went away without an outcome.
    WorkerGone,
}

/// The interactive selection.
pub struct App {
    pub config: ActioneerConfig,
    /// The workflow paths the scan was asked for.
    pub workflow_paths: Vec<String>,
    pub should_quit: bool,
    pub tick: u64,
    pub phase: ScanPhase,
    pub report: Option<ScanReport>,
    pub error: Option<String>,
    pub groups: Vec<WorkflowGroup>,
    pub list_view: ListView,
    /// Index into the focusable rows of `list_view`.
    pub focus_index: usize,
    pub scroll_offset: usize,
    pub status_banner: Option<String>,
    /// Updated each frame for scroll calculations.
    pub viewport_rows: usize,
    pub apply_report: Option<ApplyReport>,
    pub apply_error: Option<String>,
}

/// The spinner's frames.
pub open spec fn frame(k: int) -> char {
    if k == 0 {
        '⠋'
    } else if k == 1 {
        '⠙'
    } else if k == 2 {
        '⠹'
    } else if k == 3 {
        '⠸'
    } else if k == 4 {
        '⠼'
    } else if k == 5 {
        '⠴'
    } else if k == 6 {
        '⠦'
    } else if k == 7 {
        '⠧'
    } else if k == 8 {
        '⠇'
    } else {
        '⠏'
    }
}

/// Number of items over all groups.
pub open spec fn total_items(gs: Seq<GroupView>) -> nat
    decreases gs.len(),
{
    if gs.len() == 0 {
        0
    } else {
        total_items(gs.drop_last()) + gs.last().items.len()
    }
}

/// Number of selected items of one group.
pub open spec fn selected_in(items: Seq<ItemView>) -> nat
    decreases items.len(),
{
    if items.len() == 0 {
        0
    } else {
        selected_in(items.drop_last()) + if items.last().selected {
            1nat
        } else {
            0nat
        }
    }
}

/// Number of selected items over all groups.
pub open spec fn selected_total(gs: Seq<GroupView>) -> nat
    decreases gs.len(),
{
    if gs.len() == 0 {
        0
    } else {
        selected_total(gs.drop_last()) + selected_in(gs.last().items)
    }
}

proof fn lemma_selected_in_bound(items: Seq<ItemView>)
    ensures
        selected_in(items) <= items.len(),
    decreases items.len(),
{
    if items.len() > 0 {
        lemma_selected_in_bound(items.drop_last());
    }
}

proof fn lemma_selected_total_bound(gs: Seq<GroupView>)
    ensures
        selected_total(gs) <= total_items(gs),
    decreases gs.len(),
{
    if gs.len() > 0 {
        lemma_selected_total_bound(gs.drop_last());
        lemma_selected_in_bound(gs.last().items);
    }
}

/// The apply targets of the selected items of one group, in order.
pub open spec fn targets_in(path: Seq<char>, items: Seq<ItemView>) -> Seq<(Seq<char>, u32)>
    decreases items.len(),
{
    if items.len() == 0 {
        Seq::empty()
    } else {
        let rest = targets_in(path, items.drop_last());
        if items.last().selected {
            rest.push((path, items.last().line))
        } else {
            rest
        }
    }
}

/// The apply targets of all selected items, group after group.
pub open spec fn selected_targets(gs: Seq<GroupView>) -> Seq<(Seq<char>, u32)>
    decreases gs.len(),
{
    if gs.len() == 0 {
        Seq::empty()
    } else {
        selected_targets(gs.drop_last()) + targets_in(gs.last().path, gs.last().items)
    }
}

/// Every item of every group selected (or unselected) as `value` says.
pub open spec fn with_selection(gs: Seq<GroupView>, value: bool) -> Seq<GroupView> {
    gs.map_values(
        |g: GroupView|
            GroupView {
                items: g.items.map_values(|i: ItemView| ItemView { selected: value, ..i }),
                ..g
            },
    )
}

/// Group `g` collapsed when it was expanded, and expanded when it was collapsed.
pub open spec fn toggle_group(gs: Seq<GroupView>, g: int) -> Seq<GroupView> {
    gs.update(g, GroupView { collapsed: !gs[g].collapsed, ..gs[g] })
}

/// Item `i` of group `g` selected when it was not, and unselected when it was.
pub open spec fn toggle_item(gs: Seq<GroupView>, g: int, i: int) -> Seq<GroupView> {
    gs.update(
        g,
        GroupView {
            items: gs[g].items.update(i, ItemView { selected: !gs[g].items[i].selected, ..gs[g].items[i] }),
            ..gs[g]
        },
    )
}

/// The row that has the focus, if any.
pub open spec fn focused_row(rows: Seq<DisplayRow>, focus_index: usize) -> Option<DisplayRow> {
    let f = focusable_of(rows);
    if focus_index < f.len() && f[focus_index as int] < rows.len() {
        Some(rows[f[focus_index as int] as int])
    } else {
        None
    }
}

/// The scroll offset and the viewport fit together in a `usize`.
pub open spec fn scroll_room(scroll: usize, viewport: usize) -> bool {
    scroll + viewport <= usize::MAX
}

/// The focus after the list changed: kept on the same focusable index when
/// it still exists, else on the last one; zero when nothing can be focused.
pub open spec fn clamped_focus(rows: Seq<DisplayRow>, focus: usize) -> usize {
    let n = focusable_of(rows).len();
    if n == 0 {
        0
    } else if focus >= n {
        (n - 1) as usize
    } else {
        focus
    }
}

/// The scroll offset that keeps the focused row in view.
pub open spec fn spec_scroll(focusable: Seq<usize>, focus: usize, scroll: usize, visible: usize) -> int {
    if visible == 0 {
        0
    } else if focus >= focusable.len() {
        scroll as int
    } else {
        let row = focusable[focus as int];
        if row < scroll {
            row as int
        } else if row >= scroll + visible {
            row - (visible - 1)
        } else {
            scroll as int
        }
    }
}

fn copy_item(item: &SelectableItem, selected: bool) -> (r: SelectableItem)
    ensures
        r@ == (ItemView { selected, ..item@ }),
{
    SelectableItem {
        line: item.line,
        action: item.action.clone(),
        from_label: item.from_label.clone(),
        to_label: item.to_label.clone(),
        selected,
    }
}

fn set_selection(groups: &mut Vec<WorkflowGroup>, value: bool)
    ensures
        group_views(final(groups)@) == with_selection(group_views(old(groups)@), value),
{
    let mut out: Vec<WorkflowGroup> = Vec::new();
    let mut g: usize = 0;
    while g < groups.len()
        invariant
            0 <= g <= groups.len(),
            out@.len() == g,
            group_views(out@) == with_selection(group_views(groups@), value).take(g as int),
        decreases groups.len() - g,
    {
        let group = &groups[g];
        let mut items: Vec<SelectableItem> = Vec::new();
        let mut i: usize = 0;
        while i < group.items.len()
            invariant
                0 <= i <= group.items.len(),
                items@.len() == i,
                group@.items.len() == group.items@.len(),
                items@.map_values(|x: SelectableItem| x@) == group@.items.map_values(
                    |x: ItemView| ItemView { selected: value, ..x },
                ).take(i as int),
            decreases group.items.len() - i,
        {
            let ghost before = items@;
            let c = copy_item(&group.items[i], value);
            items.push(c);
            proof {
                let lhs = items@.map_values(|x: SelectableItem| x@);
                let rhs = group@.items.map_values(|x: ItemView| ItemView { selected: value, ..x }).take(
                    i as int + 1,
                );
                assert(group@.items[i as int] == group.items@[i as int]@);
                assert(lhs.len() == rhs.len());
                assert forall|k: int| 0 <= k < lhs.len() implies lhs[k] == rhs[k] by {
                    if k < i {
                        assert(items@[k] == before[k]);
                        assert(before.map_values(|x: SelectableItem| x@)[k] == lhs[k]);
                    } else {
                        assert(items@[k] == c);
                    }
                }
                assert(lhs =~= rhs);
            }
            i += 1;
        }
        let ng = WorkflowGroup {
            workflow_path: group.workflow_path.clone(),
            collapsed: group.collapsed,
            items,
        };
        let ghost before = out@;
        proof {
            assert(items@.map_values(|x: SelectableItem| x@).take(group.items@.len() as int)
                =~= items@.map_values(|x: SelectableItem| x@));
            assert(ng@.items =~= group@.items.map_values(|x: ItemView| ItemView { selected: value, ..x }));
        }
        out.push(ng);
        proof {
            let lhs = group_views(out@);
            let rhs = with_selection(group_views(groups@), value).take(g as int + 1);
            assert(group_views(groups@)[g as int] == group@);
            assert forall|k: int| 0 <= k < lhs.len() implies lhs[k] == rhs[k] by {
                if k < g {
                    assert(out@[k] == before[k]);
                    assert(group_views(before)[k] == lhs[k]);
                } else {
                    assert(out@[k] == ng);
                }
            }
            assert(lhs =~= rhs);
        }
        g += 1;
    }
    proof {
        assert(with_selection(group_views(groups@), value).take(groups@.len() as int)
            =~= with_selection(group_views(groups@), value));
    }
    *groups = out;
}

impl App {
    /// A new selection for `config`, scanning `workflow_paths`.
    pub fn new(config: ActioneerConfig, workflow_paths: Vec<String>) -> (r: Self)
        ensures
            r.config == config,
            r.workflow_paths == workflow_paths,
            !r.should_quit,
            r.tick == 0,
            r.phase == ScanPhase::Scanning,
            r.report is None,
            r.error is None,
            r.groups@.len() == 0,
            r.list_view.rows@.len() == 0,
            r.focus_index == 0,
            r.scroll_offset == 0,
            r.status_banner is None,
            r.viewport_rows == 20,
            r.apply_report is None,
            r.apply_error is None,
    {
        App {
            config,
            workflow_paths,
            should_quit: false,
            tick: 0,
            phase: ScanPhase::Scanning,
            report: None,
            error: None,
            groups: Vec::new(),
            list_view: ListView::default(),
            focus_index: 0,
            scroll_offset: 0,
            status_banner: None,
            viewport_rows: 20,
            apply_report: None,
            apply_error: None,
        }
    }

    /// The rows that can take the focus.
    pub fn focusable_rows(&self) -> (r: Vec<usize>)
        ensures
            r@ == focusable_of(self.list_view.rows@),
    {
        self.list_view.focusable_row_indices()
    }

    /// The display row that has the focus, if any.
    pub fn focused_display_row(&self) -> (r: Option<usize>)
        ensures
            ({
                let f = focusable_of(self.list_view.rows@);
                &&& self.focus_index < f.len() ==> r == Some(f[self.focus_index as int])
                &&& self.focus_index >= f.len() ==> r is None
            }),
    {
        focus_to_row(&self.focusable_rows(), self.focus_index)
    }

    fn clamp_focus(&mut self)
        requires
            scroll_room(old(self).scroll_offset, old(self).viewport_rows),
        ensures
            final(self).groups == old(self).groups,
            final(self).list_view == old(self).list_view,
            final(self).focus_index == clamped_focus(old(self).list_view.rows@, old(self).focus_index),
            focusable_of(old(self).list_view.rows@).len() == 0 ==> final(self).scroll_offset == 0,
            focusable_of(old(self).list_view.rows@).len() > 0 ==> final(self).scroll_offset
                == spec_scroll(
                focusable_of(old(self).list_view.rows@),
                final(self).focus_index,
                old(self).scroll_offset,
                old(self).viewport_rows,
            ),
            scroll_room(final(self).scroll_offset, final(self).viewport_rows),
            final(self).viewport_rows == old(self).viewport_rows,
            final(self).config == old(self).config,
            final(self).report == old(self).report,
            final(self).phase == old(self).phase,
            final(self).error == old(self).error,
            final(self).status_banner == old(self).status_banner,
            final(self).should_quit == old(self).should_quit,
            final(self).tick == old(self).tick,
            final(self).apply_report == old(self).apply_report,
            final(self).apply_error == old(self).apply_error,
            final(self).workflow_paths == old(self).workflow_paths,
    {
        let focusable = self.focusable_rows();
        proof {
            assert(self.list_view.rows@.len() == self.list_view.rows.len());
            lemma_focusable_of(self.list_view.rows@);
        }
        if focusable.len() == 0 {
            self.focus_index = 0;
            self.scroll_offset = 0;
            return ;
        }
        if self.focus_index >= focusable.len() {
            self.focus_index = focusable.len() - 1;
        }
        self.scroll_offset = scroll_for_focus(
            &focusable,
            self.focus_index,
            self.scroll_offset,
            self.viewport_rows,
        );
    }

    /// Rebuild the rows from the groups and keep the focus in range.
    pub fn rebuild_list(&mut self)
        requires
            scroll_room(old(self).scroll_offset, old(self).viewport_rows),
        ensures
            final(self).groups == old(self).groups,
            final(self).list_view.rows@ == rows_of(old(self).groups@),
            final(self).focus_index == clamped_focus(rows_of(old(self).groups@), old(self).focus_index),
            scroll_room(final(self).scroll_offset, final(self).viewport_rows),
            final(self).viewport_rows == old(self).viewport_rows,
            final(self).config == old(self).config,
            final(self).report == old(self).report,
            final(self).phase == old(self).phase,
            final(self).error == old(self).error,
            final(self).status_banner == old(self).status_banner,
            final(self).should_quit == old(self).should_quit,
            final(self).tick == old(self).tick,
            final(self).apply_report == old(self).apply_report,
            final(self).apply_error == old(self).apply_error,
            final(self).workflow_paths == old(self).workflow_paths,
    {
        self.list_view = ListView::rebuild(&self.groups);
        self.clamp_focus();
    }

    /// Take in the outcome of the scan while it is running: a report becomes
    /// the groups and rows, focused on the first row; a failure is recorded.
    pub fn poll_scan(&mut self, event: ScanEvent)
        requires
            scroll_room(old(self).scroll_offset, old(self).viewport_rows),
            event matches ScanEvent::Finished(report) ==> labels_ok(report.workflows@),
        ensures
            scroll_room(final(self).scroll_offset, final(self).viewport_rows),
            final(self).viewport_rows == old(self).viewport_rows,
            final(self).config == old(self).config,
            old(self).phase != ScanPhase::Scanning || event is Pending ==> *final(self) == *old(self),
            old(self).phase == ScanPhase::Scanning ==> match event {
                ScanEvent::Finished(report) => {
                    &&& final(self).phase == ScanPhase::Ready
                    &&& final(self).report == Some(report)
                    &&& group_views(final(self).groups@) == groups_of(
                        flat_planned(report.workflows@),
                        old(self).config.pin,
                    )
                    &&& final(self).list_view.rows@ == rows_of(final(self).groups@)
                    &&& final(self).focus_index == 0
                },
                ScanEvent::Failed(message) => final(self).phase == ScanPhase::Failed
                    && final(self).error == Some(message),
                ScanEvent::WorkerGone => final(self).phase == ScanPhase::Failed && (final(self).error
                    matches Some(m) && m@ == "scan worker exited unexpectedly"@),
                ScanEvent::Pending => true,
            },
    {
        if self.phase != ScanPhase::Scanning {
            return ;
        }
        match event {
            ScanEvent::Finished(report) => {
                self.groups = from_report(&report, &self.config);
                self.rebuild_list();
                if self.focusable_rows().len() > 0 {
                    self.focus_index = 0;
                }
                self.report = Some(report);
                self.phase = ScanPhase::Ready;
            },
            ScanEvent::Failed(message) => {
                self.error = Some(message);
                self.phase = ScanPhase::Failed;
            },
            ScanEvent::Pending => {},
            ScanEvent::WorkerGone => {
                proof {
                    reveal_strlit("scan worker exited unexpectedly");
                }
                self.error = Some("scan worker exited unexpectedly".to_string());
                self.phase = ScanPhase::Failed;
            },
        }
    }

    /// Number of planned items over all groups.
    pub fn total_planned_items(&self) -> (r: usize)
        requires
            total_items(group_views(self.groups@)) <= usize::MAX,
        ensures
            r == total_items(group_views(self.groups@)),
    {
        let ghost gs = group_views(self.groups@);
        let mut total: usize = 0;
        let mut g: usize = 0;
        while g < self.groups.len()
            invariant
                0 <= g <= self.groups.len(),
                gs == group_views(self.groups@),
                total == total_items(gs.take(g as int)),
                total_items(gs) <= usize::MAX,
            decreases self.groups.len() - g,
        {
            proof {
                assert(gs.take(g as int + 1).drop_last() == gs.take(g as int));
                lemma_total_prefix(gs, g as int + 1);
            }
            total = total + self.groups[g].items.len();
            g += 1;
        }
        proof {
            assert(gs.take(gs.len() as int) == gs);
        }
        total
    }

    /// Number of selected items over all groups.
    pub fn selected_count(&self) -> (r: usize)
        requires
            total_items(group_views(self.groups@)) <= usize::MAX,
        ensures
            r == selected_total(group_views(self.groups@)),
    {
        let ghost gs = group_views(self.groups@);
        let mut count: usize = 0;
        let mut g: usize = 0;
        while g < self.groups.len()
            invariant
                0 <= g <= self.groups.len(),
                gs == group_views(self.groups@),
                count == selected_total(gs.take(g as int)),
                total_items(gs) <= usize::MAX,
            decreases self.groups.len() - g,
        {
            let group = &self.groups[g];
            proof {
                assert(gs.take(g as int + 1).drop_last() == gs.take(g as int));
                assert(gs.take(g as int + 1).last() == group@);
                lemma_total_prefix(gs, g as int + 1);
                lemma_selected_total_bound(gs.take(g as int + 1));
            }
            let ghost base = count;
            let mut i: usize = 0;
            while i < group.items.len()
                invariant
                    0 <= i <= group.items.len(),
                    count == base + selected_in(group@.items.take(i as int)),
                    base + selected_in(group@.items) <= usize::MAX,
                decreases group.items.len() - i,
            {
                proof {
                    assert(group@.items.take(i as int + 1).drop_last() == group@.items.take(i as int));
                    lemma_selected_prefix(group@.items, i as int + 1);
                }
                if group.items[i].selected {
                    count = count + 1;
                }
                i += 1;
            }
            proof {
                assert(group@.items.take(group@.items.len() as int) == group@.items);
            }
            g += 1;
        }
        proof {
            assert(gs.take(gs.len() as int) == gs);
        }
        count
    }

    /// Move the focus by `delta` focusable rows, stopping at the ends, and
    /// scroll to keep it in view.
    pub fn move_selection(&mut self, delta: isize)
        requires
            focusable_of(old(self).list_view.rows@).len() > 0 ==> isize::MIN <= (old(self).focus_index as isize)
                + delta <= isize::MAX,
            scroll_room(old(self).scroll_offset, old(self).viewport_rows),
        ensures
            ({
                let f = focusable_of(old(self).list_view.rows@);
                &&& f.len() == 0 ==> *final(self) == *old(self)
                &&& f.len() > 0 ==> final(self).focus_index == clamp(
                    (old(self).focus_index as isize) + delta,
                    0,
                    f.len() - 1,
                ) && final(self).scroll_offset == spec_scroll(
                    f,
                    final(self).focus_index,
                    old(self).scroll_offset,
                    old(self).viewport_rows,
                )
            }),
            final(self).groups == old(self).groups,
            final(self).list_view == old(self).list_view,
            final(self).viewport_rows == old(self).viewport_rows,
            scroll_room(final(self).scroll_offset, final(self).viewport_rows),
    {
        let focusable = self.focusable_rows();
        if focusable.len() == 0 {
            return ;
        }
        proof {
            assert(self.list_view.rows@.len() == self.list_view.rows.len());
            lemma_focusable_of(self.list_view.rows@);
        }
        self.focus_index = move_focus(&focusable, self.focus_index, delta);
        self.scroll_offset = scroll_for_focus(
            &focusable,
            self.focus_index,
            self.scroll_offset,
            self.viewport_rows,
        );
    }

    /// Toggle what has the focus: a group header collapses or expands its
    /// group (and the rows are rebuilt); an action row flips its selection.
    pub fn toggle_current(&mut self)
        requires
            scroll_room(old(self).scroll_offset, old(self).viewport_rows),
        ensures
            scroll_room(final(self).scroll_offset, final(self).viewport_rows),
            final(self).viewport_rows == old(self).viewport_rows,
            match focused_row(old(self).list_view.rows@, old(self).focus_index) {
                Some(DisplayRow::GroupHeader(g)) => {
                    &&& g < old(self).groups@.len() ==> group_views(final(self).groups@) == toggle_group(
                        group_views(old(self).groups@),
                        g as int,
                    )
                    &&& g >= old(self).groups@.len() ==> final(self).groups == old(self).groups
                    &&& final(self).list_view.rows@ == rows_of(final(self).groups@)
                },
                Some(DisplayRow::Action { group, item }) => {
                    &&& final(self).list_view == old(self).list_view
                    &&& final(self).focus_index == old(self).focus_index
                    &&& group < old(self).groups@.len() && item < old(self).groups@[group as int].items@.len()
                        ==> group_views(final(self).groups@) == toggle_item(
                        group_views(old(self).groups@),
                        group as int,
                        item as int,
                    )
                    &&& !(group < old(self).groups@.len() && item < old(self).groups@[group as int].items@.len())
                        ==> final(self).groups == old(self).groups
                },
                _ => *final(self) == *old(self),
            },
    {
        let focusable = self.focusable_rows();
        proof {
            assert(self.list_view.rows@.len() == self.list_view.rows.len());
            lemma_focusable_of(self.list_view.rows@);
        }
        if self.focus_index >= focusable.len() {
            return ;
        }
        let idx = focusable[self.focus_index];
        let row = match self.list_view.row(idx) {
            Some(r) => r,
            None => return ,
        };
        match row {
            DisplayRow::GroupHeader(g) => {
                if g < self.groups.len() {
                    let ghost before = group_views(self.groups@);
                    let mut group = self.groups.remove(g);
                    let ghost old_group = group@;
                    group.collapsed = !group.collapsed;
                    self.groups.insert(g, group);
                    proof {
                        assert(group_views(self.groups@) =~= before.update(
                            g as int,
                            GroupView { collapsed: !old_group.collapsed, ..old_group },
                        ));
                    }
                }
                self.rebuild_list();
            },
            DisplayRow::Action { group, item } => {
                if group < self.groups.len() && item < self.groups[group].items.len() {
                    let ghost before = group_views(self.groups@);
                    let mut g = self.groups.remove(group);
                    let ghost old_g = g@;
                    let mut entry = g.items.remove(item);
                    let ghost old_entry = entry@;
                    entry.selected = !entry.selected;
                    g.items.insert(item, entry);
                    proof {
                        assert(g@.items =~= old_g.items.update(
                            item as int,
                            ItemView { selected: !old_entry.selected, ..old_entry },
                        ));
                    }
                    self.groups.insert(group, g);
                    proof {
                        assert(group_views(self.groups@) =~= before.update(
                            group as int,
                            GroupView {
                                items: old_g.items.update(
                                    item as int,
                                    ItemView { selected: !old_entry.selected, ..old_entry },
                                ),
                                ..old_g
                            },
                        ));
                    }
                }
            },
            DisplayRow::Spacer => {},
        }
    }

    /// Select every planned item.
    pub fn select_all(&mut self)
        ensures
            group_views(final(self).groups@) == with_selection(group_views(old(self).groups@), true),
            final(self).list_view == old(self).list_view,
            final(self).focus_index == old(self).focus_index,
            final(self).scroll_offset == old(self).scroll_offset,
            final(self).viewport_rows == old(self).viewport_rows,
    {
        set_selection(&mut self.groups, true);
    }

    /// Unselect every planned item.
    pub fn select_none(&mut self)
        ensures
            group_views(final(self).groups@) == with_selection(group_views(old(self).groups@), false),
            final(self).list_view == old(self).list_view,
            final(self).focus_index == old(self).focus_index,
            final(self).scroll_offset == old(self).scroll_offset,
            final(self).viewport_rows == old(self).viewport_rows,
    {
        set_selection(&mut self.groups, false);
    }

    /// The targets to apply: the selected items, group after group. With
    /// nothing selected, a banner asks for a selection instead; without a
    /// report there is nothing to apply.
    pub fn apply_selected(&mut self) -> (r: Option<Vec<ApplyTarget>>)
        requires
            total_items(group_views(old(self).groups@)) <= usize::MAX,
        ensures
            final(self).groups == old(self).groups,
            final(self).report == old(self).report,
            final(self).scroll_offset == old(self).scroll_offset,
            final(self).viewport_rows == old(self).viewport_rows,
            final(self).config == old(self).config,
            final(self).workflow_paths == old(self).workflow_paths,
            final(self).should_quit == old(self).should_quit,
            final(self).tick == old(self).tick,
            final(self).phase == old(self).phase,
            final(self).error == old(self).error,
            final(self).list_view == old(self).list_view,
            final(self).focus_index == old(self).focus_index,
            final(self).apply_report == old(self).apply_report,
            final(self).apply_error == old(self).apply_error,
            selected_total(group_views(old(self).groups@)) == 0 ==> r is None && (final(self).status_banner
                matches Some(b) && b@ == "Select at least one update (Space to toggle)."@),
            selected_total(group_views(old(self).groups@)) > 0 ==> final(self).status_banner
                == old(self).status_banner && (old(self).report is None ==> r is None) && (
            old(self).report is Some ==> (r matches Some(ts) && ts@.map_values(
                |t: ApplyTarget| (t.workflow_path@, t.line),
            ) == selected_targets(group_views(old(self).groups@)))),
            r matches Some(ts) ==> ts@.len() == selected_total(group_views(old(self).groups@)) && forall|k: int|
                0 <= k < ts@.len() ==> crate::laws::from_selected_item(
                    group_views(old(self).groups@),
                    (#[trigger] ts@[k].workflow_path@, ts@[k].line),
                ),
    {
        if self.selected_count() == 0 {
            proof {
                reveal_strlit("Select at least one update (Space to toggle).");
            }
            self.status_banner = Some("Select at least one update (Space to toggle).".to_string());
            return None;
        }
        if self.report.is_none() {
            return None;
        }
        let ghost gs = group_views(self.groups@);
        let mut targets: Vec<ApplyTarget> = Vec::new();
        let mut g: usize = 0;
        while g < self.groups.len()
            invariant
                0 <= g <= self.groups.len(),
                gs == group_views(self.groups@),
                targets@.map_values(|t: ApplyTarget| (t.workflow_path@, t.line)) == selected_targets(
                    gs.take(g as int),
                ),
            decreases self.groups.len() - g,
        {
            let group = &self.groups[g];
            proof {
                assert(gs.take(g as int + 1).drop_last() == gs.take(g as int));
                assert(gs.take(g as int + 1).last() == group@);
            }
            let ghost base = targets@.map_values(|t: ApplyTarget| (t.workflow_path@, t.line));
            let mut i: usize = 0;
            while i < group.items.len()
                invariant
                    0 <= i <= group.items.len(),
                    targets@.map_values(|t: ApplyTarget| (t.workflow_path@, t.line)) == base
                        + targets_in(group@.path, group@.items.take(i as int)),
                decreases group.items.len() - i,
            {
                proof {
                    assert(group@.items.take(i as int + 1).drop_last() == group@.items.take(i as int));
                }
                let item = &group.items[i];
                if item.selected {
                    let t = item.apply_target(group.workflow_path.as_str());
                    let ghost prev = targets@;
                    targets.push(t);
                    proof {
                        assert(targets@.map_values(|t: ApplyTarget| (t.workflow_path@, t.line))
                            =~= prev.map_values(|t: ApplyTarget| (t.workflow_path@, t.line)).push(
                            (group@.path, item.line),
                        ));
                    }
                }
                i += 1;
            }
            proof {
                assert(group@.items.take(group@.items.len() as int) == group@.items);
            }
            g += 1;
        }
        proof {
            assert(gs.take(gs.len() as int) == gs);
            crate::laws::law_selected_targets_are_the_selection(gs);
            let tv = targets@.map_values(|t: ApplyTarget| (t.workflow_path@, t.line));
            assert forall|k: int| 0 <= k < targets@.len() implies crate::laws::from_selected_item(
                gs,
                (#[trigger] targets@[k].workflow_path@, targets@[k].line),
            ) by {
                assert(tv[k] == (targets@[k].workflow_path@, targets@[k].line));
                assert(crate::laws::from_selected_item(gs, selected_targets(gs)[k]));
            }
        }
        Some(targets)
    }

    /// Record what applying the selection gave, and quit.
    pub fn finish_apply(&mut self, outcome: Result<ApplyReport, String>)
        ensures
            final(self).should_quit,
            match outcome {
                Ok(report) => final(self).apply_report == Some(report) && final(self).apply_error
                    == old(self).apply_error,
                Err(message) => final(self).apply_error == Some(message) && final(self).apply_report
                    == old(self).apply_report,
            },
    {
        match outcome {
            Ok(report) => {
                self.apply_report = Some(report);
            },
            Err(message) => {
                self.apply_error = Some(message);
            },
        }
        self.quit();
    }

    /// Advance the spinner by one frame.
    pub fn on_tick(&mut self)
        ensures
            final(self).tick == if old(self).tick == u64::MAX {
                0
            } else {
                old(self).tick + 1
            },
    {
        if self.tick == u64::MAX {
            self.tick = 0;
        } else {
            self.tick = self.tick + 1;
        }
    }

    /// The spinner frame for the current tick.
    pub fn spinner(&self) -> (r: char)
        ensures
            r == frame(((self.tick as usize) % 10) as int),
    {
        let k = (self.tick as usize) % 10;
        if k == 0 {
            '⠋'
        } else if k == 1 {
            '⠙'
        } else if k == 2 {
            '⠹'
        } else if k == 3 {
            '⠸'
        } else if k == 4 {
            '⠼'
        } else if k == 5 {
            '⠴'
        } else if k == 6 {
            '⠦'
        } else if k == 7 {
            '⠧'
        } else if k == 8 {
            '⠇'
        } else {
            '⠏'
        }
    }

    /// Ask the event loop to stop.
    pub fn quit(&mut self)
        ensures
            final(self).should_quit,
            final(self).groups == old(self).groups,
            final(self).apply_report == old(self).apply_report,
            final(self).apply_error == old(self).apply_error,
    {
        self.should_quit = true;
    }
}

proof fn lemma_total_prefix(gs: Seq<GroupView>, k: int)
    requires
        0 <= k <= gs.len(),
    ensures
        total_items(gs.take(k)) <= total_items(gs),
    decreases gs.len() - k,
{
    if k < gs.len() {
        lemma_total_prefix(gs, k + 1);
        assert(gs.take(k + 1).drop_last() == gs.take(k));
    } else {
        assert(gs.take(k) == gs);
    }
}

proof fn lemma_selected_prefix(items: Seq<ItemView>, k: int)
    requires
        0 <= k <= items.len(),
    ensures
        selected_in(items.take(k)) <= selected_in(items),
    decreases items.len() - k,
{
    if k < items.len() {
        lemma_selected_prefix(items, k + 1);
        assert(items.take(k + 1).drop_last() == items.take(k));
    } else {
        assert(items.take(k) == items);
    }
}


/// A key, as the interactive selection reads it.
#[derive(Debug, Clone, Copy, PartialEq, Eq, Structural)]
pub enum UiKey {
    Up,
    Down,
    Space,
    Enter,
    SelectAll,
    SelectNone,
    /// `q` or Esc.
    Quit,
    /// Ctrl-C.
    Interrupt,
    Other,
}

/// What a key asks of the selection.
#[derive(Debug, Clone, Copy, PartialEq, Eq, Structural)]
pub enum KeyAction {
    Quit,
    Move(isize),
    Toggle,
    SelectAll,
    SelectNone,
    Apply,
    Nothing,
}

/// The action for `key` in `phase`, where `on_header` says whether the
/// focused row is a group header.
pub open spec fn spec_key_action(phase: ScanPhase, key: UiKey, on_header: bool) -> KeyAction {
    if key == UiKey::Interrupt {
        KeyAction::Quit
    } else if phase == ScanPhase::Ready {
        match key {
            UiKey::Up => KeyAction::Move(-1isize),
            UiKey::Down => KeyAction::Move(1isize),
            UiKey::Space => KeyAction::Toggle,
            UiKey::SelectAll => KeyAction::SelectAll,
            UiKey::SelectNone => KeyAction::SelectNone,
            UiKey::Enter => if on_header {
                KeyAction::Toggle
            } else {
                KeyAction::Apply
            },
            UiKey::Quit => KeyAction::Quit,
            _ => KeyAction::Nothing,
        }
    } else if key == UiKey::Quit {
        KeyAction::Quit
    } else {
        KeyAction::Nothing
    }
}

/// The focused row is a group header.
pub open spec fn on_group_header(rows: Seq<DisplayRow>, focus_index: usize) -> bool {
    let f = focusable_of(rows);
    focus_index < f.len() && f[focus_index as int] < rows.len() && rows[f[focus_index as int] as int] is GroupHeader
}

/// Outcome after the interactive selection closes: at most one of the two
/// is set, and neither when the user quit without applying.
#[derive(Debug)]
pub struct TuiOutcome {
    /// What applying the selection gave, when it produced a report.
    pub apply_report: Option<ApplyReport>,
    /// Why applying the selection produced no report.
    pub apply_error: Option<String>,
}

impl Default for TuiOutcome {
    fn default() -> (r: Self)
        ensures
            r.apply_report is None,
            r.apply_error is None,
    {
        TuiOutcome { apply_report: None, apply_error: None }
    }
}

impl App {
    /// What `key` asks for now.
    pub fn key_action(&self, key: UiKey) -> (r: KeyAction)
        ensures
            r == spec_key_action(self.phase, key, on_group_header(self.list_view.rows@, self.focus_index)),
    {
        if key == UiKey::Interrupt {
            return KeyAction::Quit;
        }
        if self.phase == ScanPhase::Ready {
            match key {
                UiKey::Up => KeyAction::Move(-1),
                UiKey::Down => KeyAction::Move(1),
                UiKey::Space => KeyAction::Toggle,
                UiKey::SelectAll => KeyAction::SelectAll,
                UiKey::SelectNone => KeyAction::SelectNone,
                UiKey::Enter => {
                    let on_header = match self.focused_display_row() {
                        Some(idx) => match self.list_view.row(idx) {
                            Some(DisplayRow::GroupHeader(_)) => true,
                            _ => false,
                        },
                        None => false,
                    };
                    if on_header {
                        KeyAction::Toggle
                    } else {
                        KeyAction::Apply
                    }
                },
                UiKey::Quit => KeyAction::Quit,
                _ => KeyAction::Nothing,
            }
        } else if key == UiKey::Quit {
            KeyAction::Quit
        } else {
            KeyAction::Nothing
        }
    }

    /// What the selection ended with.
    pub fn outcome(self) -> (r: TuiOutcome)
        ensures
            r.apply_report == self.apply_report,
            r.apply_error == self.apply_error,
    {
        TuiOutcome { apply_report: self.apply_report, apply_error: self.apply_error }
    }
}

} // verus!
