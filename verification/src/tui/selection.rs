//! Planned updates grouped by workflow file, each one selectable.
use vstd::prelude::*;

use crate::config::{ActioneerConfig, PinMode};
use crate::paths::{file_name, spec_file_name};
use crate::scan::apply::labels_ok;
use crate::scan::display::{plan_from_label, plan_to_label, spec_plan_from_label, spec_plan_to_label};
use crate::scan::types::{ApplyTarget, ReferenceReport, ScanReport, derefs_pairs, flat_planned};

verus! {

/// One planned update within a workflow group.
#[derive(Debug, Clone, PartialEq, Eq)]
pub struct SelectableItem {
    pub line: u32,
    pub action: String,
    pub from_label: String,
    pub to_label: String,
    pub selected: bool,
}

/// Planned updates for one workflow file.
#[derive(Debug, Clone, PartialEq, Eq)]
pub struct WorkflowGroup {
    pub workflow_path: String,
    pub collapsed: bool,
    pub items: Vec<SelectableItem>,
}

/// A [`SelectableItem`] as values.
pub ghost struct ItemView {
    pub line: u32,
    pub action: Seq<char>,
    pub from_label: Seq<char>,
    pub to_label: Seq<char>,
    pub selected: bool,
}

/// A [`WorkflowGroup`] as values.
pub ghost struct GroupView {
    pub path: Seq<char>,
    pub collapsed: bool,
    pub items: Seq<ItemView>,
}

impl View for SelectableItem {
    type V = ItemView;

    open spec fn view(&self) -> ItemView {
        ItemView {
            line: self.line,
            action: self.action@,
            from_label: self.from_label@,
            to_label: self.to_label@,
            selected: self.selected,
        }
    }
}

impl View for WorkflowGroup {
    type V = GroupView;

    open spec fn view(&self) -> GroupView {
        GroupView {
            path: self.workflow_path@,
            collapsed: self.collapsed,
            items: self.items@.map_values(|i: SelectableItem| i@),
        }
    }
}

pub open spec fn group_views(gs: Seq<WorkflowGroup>) -> Seq<GroupView> {
    gs.map_values(|g: WorkflowGroup| g@)
}

/// The name shown for a group: the workflow file's name, or `?`.
pub open spec fn spec_workflow_name(path: Seq<char>) -> Seq<char> {
    match spec_file_name(path) {
        Some(n) => n,
        None => "?"@,
    }
}

impl WorkflowGroup {
    /// The file name of the workflow, or `?` when its path has none.
    pub fn workflow_name(&self) -> (r: String)
        ensures
            r@ == spec_workflow_name(self.workflow_path@),
    {
        proof {
            reveal_strlit("?");
        }
        match file_name(self.workflow_path.as_str()) {
            Some(n) => n,
            None => "?".to_string(),
        }
    }
}

impl SelectableItem {
    /// The apply target of this item in the workflow at `workflow_path`.
    pub fn apply_target(&self, workflow_path: &str) -> (r: ApplyTarget)
        ensures
            r.workflow_path@ == workflow_path@,
            r.line == self.line,
    {
        ApplyTarget { workflow_path: workflow_path.to_string(), line: self.line }
    }
}

/// The item of a planned reference: its line (zero when unknown), its action
/// and its labels, unselected.
pub open spec fn item_of(r: ReferenceReport, mode: PinMode) -> ItemView {
    ItemView {
        line: match r.resolved.located.reference.line {
            Some(n) => n,
            None => 0,
        },
        action: r.resolved.located.reference.raw@,
        from_label: spec_plan_from_label(r.resolved.located.reference.pin_kind, r.planned->0),
        to_label: spec_plan_to_label(r.planned->0, mode),
        selected: false,
    }
}

/// Planned references grouped by workflow: consecutive references of one
/// workflow share a group; groups start expanded.
pub open spec fn groups_of(ps: Seq<(String, ReferenceReport)>, mode: PinMode) -> Seq<GroupView>
    decreases ps.len(),
{
    if ps.len() == 0 {
        Seq::empty()
    } else {
        let gs = groups_of(ps.drop_last(), mode);
        let (path, r) = ps.last();
        let item = item_of(r, mode);
        if gs.len() > 0 && gs.last().path == path@ {
            gs.update(
                gs.len() - 1,
                GroupView { items: gs.last().items.push(item), ..gs.last() },
            )
        } else {
            gs.push(GroupView { path: path@, collapsed: false, items: seq![item] })
        }
    }
}

/// Build collapsible workflow groups from a scan report (items start unselected).
pub fn from_report(report: &ScanReport, config: &ActioneerConfig) -> (r: Vec<WorkflowGroup>)
    requires
        labels_ok(report.workflows@),
    ensures
        group_views(r@) == groups_of(flat_planned(report.workflows@), config.pin),
{
    let planned = report.planned_changes();
    let ghost ps = derefs_pairs(planned@);
    let mut groups: Vec<WorkflowGroup> = Vec::new();
    let mut k: usize = 0;
    while k < planned.len()
        invariant
            0 <= k <= planned.len(),
            ps == derefs_pairs(planned@),
            ps == flat_planned(report.workflows@),
            labels_ok(report.workflows@),
            group_views(groups@) == groups_of(ps.take(k as int), config.pin),
        decreases planned.len() - k,
    {
        let (path, reference) = planned[k];
        proof {
            assert(ps.take(k as int + 1).drop_last() == ps.take(k as int));
            assert(ps[k as int] == (*path, *reference));
            crate::scan::types::lemma_flat_planned_member(report.workflows@, k as int);
            let (w, i) = choose|w: int, i: int|
                0 <= w < report.workflows@.len() && 0 <= i < report.workflows@[w].references@.len()
                    && ps[k as int] == (report.workflows@[w].path, report.workflows@[w].references@[i])
                    && (#[trigger] report.workflows@[w].references@[i]).planned is Some;
            assert(report.workflows@[w].references@[i] == *reference);
        }
        let planned_change = match &reference.planned {
            Some(p) => p,
            None => {
                assert(false);
                return groups;
            },
        };
        let item = SelectableItem {
            line: match reference.resolved.located.reference.line {
                Some(n) => n,
                None => 0,
            },
            action: reference.resolved.located.reference.raw.clone(),
            from_label: plan_from_label(&reference.resolved, planned_change),
            to_label: plan_to_label(planned_change, config.pin),
            selected: false,
        };
        let ghost before = group_views(groups@);
        let n = groups.len();
        if n > 0 && crate::text::str_eq(groups[n - 1].workflow_path.as_str(), path.as_str()) {
            let mut last = groups.pop().unwrap();
            let ghost old_last = last@;
            last.items.push(item);
            groups.push(last);
            proof {
                assert(last@.items =~= old_last.items.push(item@));
                assert(group_views(groups@) =~= before.update(
                    before.len() - 1,
                    GroupView { items: before.last().items.push(item@), ..before.last() },
                ));
            }
        } else {
            let mut items: Vec<SelectableItem> = Vec::new();
            items.push(item);
            let g = WorkflowGroup { workflow_path: path.clone(), collapsed: false, items };
            groups.push(g);
            proof {
                assert(g@.items =~= seq![item@]);
                assert(group_views(groups@) =~= before.push(g@));
            }
        }
        k += 1;
    }
    proof {
        assert(ps.take(planned@.len() as int) == ps);
    }
    groups
}

} // verus!
