//! Flat display rows built from collapsible workflow groups.
use vstd::prelude::*;

use super::selection::{WorkflowGroup, spec_workflow_name};
use crate::render::{dec_string, push_decimal};
use crate::text::push_str;

verus! {

/// One rendered line in the planned-changes list.
#[derive(Debug, Clone, Copy, PartialEq, Eq, Structural)]
pub enum DisplayRow {
    Spacer,
    GroupHeader(usize),
    Action { group: usize, item: usize },
}

/// Scrollable list of display rows derived from workflow groups.
#[derive(Debug, Clone)]
pub struct ListView {
    pub rows: Vec<DisplayRow>,
}

impl Default for ListView {
    fn default() -> (r: Self)
        ensures
            r.rows@.len() == 0,
    {
        ListView { rows: Vec::new() }
    }
}

/// The action rows of group `g`, items `from..n`.
pub open spec fn action_rows(g: usize, n: int) -> Seq<DisplayRow> {
    Seq::new(n as nat, |i: int| DisplayRow::Action { group: g, item: i as usize })
}

/// The rows of group `k`: two spacers before every group but the first, its
/// header, and when it is expanded and not empty a spacer and its items.
pub open spec fn group_rows(k: usize, g: WorkflowGroup) -> Seq<DisplayRow> {
    (if k > 0 {
        seq![DisplayRow::Spacer, DisplayRow::Spacer]
    } else {
        Seq::empty()
    }) + seq![DisplayRow::GroupHeader(k)] + if !g.collapsed && g.items@.len() > 0 {
        seq![DisplayRow::Spacer] + action_rows(k, g.items@.len() as int)
    } else {
        Seq::empty()
    }
}

pub open spec fn rows_of(gs: Seq<WorkflowGroup>) -> Seq<DisplayRow>
    decreases gs.len(),
{
    if gs.len() == 0 {
        Seq::empty()
    } else {
        rows_of(gs.drop_last()) + group_rows((gs.len() - 1) as usize, gs.last())
    }
}

/// The indices of the rows that are not spacers, in order.
pub open spec fn focusable_of(rows: Seq<DisplayRow>) -> Seq<usize>
    decreases rows.len(),
{
    if rows.len() == 0 {
        Seq::empty()
    } else if rows.last() is Spacer {
        focusable_of(rows.drop_last())
    } else {
        focusable_of(rows.drop_last()).push((rows.len() - 1) as usize)
    }
}

pub proof fn lemma_focusable_of(rows: Seq<DisplayRow>)
    requires
        rows.len() <= usize::MAX,
    ensures
        focusable_of(rows).len() <= rows.len(),
        forall|k: int|
            0 <= k < focusable_of(rows).len() ==> (#[trigger] focusable_of(rows)[k]) < rows.len()
                && !(rows[focusable_of(rows)[k] as int] is Spacer),
    decreases rows.len(),
{
    if rows.len() > 0 {
        lemma_focusable_of(rows.drop_last());
        let f = focusable_of(rows.drop_last());
        let g = focusable_of(rows);
        assert forall|k: int| 0 <= k < g.len() implies (#[trigger] g[k]) < rows.len() && !(
        rows[g[k] as int] is Spacer) by {
            if k < f.len() {
                assert(g[k] == f[k]);
                assert(f[k] < rows.drop_last().len());
                assert(rows[f[k] as int] == rows.drop_last()[f[k] as int]);
            } else {
                assert(!(rows.last() is Spacer));
                assert(g == f.push((rows.len() - 1) as usize));
                assert(k == f.len());
                assert(g[k] == (rows.len() - 1) as usize);
                assert(rows[rows.len() - 1] == rows.last());
            }
        }
    }
}

impl ListView {
    /// The rows for `groups`.
    pub fn rebuild(groups: &[WorkflowGroup]) -> (r: Self)
        ensures
            r.rows@ == rows_of(groups@),
    {
        let mut rows: Vec<DisplayRow> = Vec::new();
        let mut k: usize = 0;
        while k < groups.len()
            invariant
                0 <= k <= groups.len(),
                rows@ == rows_of(groups@.take(k as int)),
            decreases groups.len() - k,
        {
            let group = &groups[k];
            proof {
                assert(groups@.take(k as int + 1).drop_last() == groups@.take(k as int));
                assert(groups@.take(k as int + 1).last() == *group);
            }
            let ghost before = rows@;
            if k > 0 {
                rows.push(DisplayRow::Spacer);
                rows.push(DisplayRow::Spacer);
            }
            rows.push(DisplayRow::GroupHeader(k));
            if !group.collapsed && group.items.len() > 0 {
                rows.push(DisplayRow::Spacer);
                let ghost head = rows@;
                let mut i: usize = 0;
                while i < group.items.len()
                    invariant
                        0 <= i <= group.items.len(),
                        rows@ == head + action_rows(k, i as int),
                    decreases group.items.len() - i,
                {
                    rows.push(DisplayRow::Action { group: k, item: i });
                    proof {
                        assert(action_rows(k, i as int + 1) =~= action_rows(k, i as int).push(
                            DisplayRow::Action { group: k, item: i },
                        ));
                    }
                    i += 1;
                }
            }
            proof {
                assert(rows@ =~= before + group_rows(k, *group));
            }
            k += 1;
        }
        proof {
            assert(groups@.take(groups@.len() as int) == groups@);
        }
        ListView { rows }
    }

    /// The indices of the rows that can take the focus.
    pub fn focusable_row_indices(&self) -> (r: Vec<usize>)
        ensures
            r@ == focusable_of(self.rows@),
    {
        let mut out: Vec<usize> = Vec::new();
        let mut i: usize = 0;
        while i < self.rows.len()
            invariant
                0 <= i <= self.rows.len(),
                out@ == focusable_of(self.rows@.take(i as int)),
            decreases self.rows.len() - i,
        {
            proof {
                assert(self.rows@.take(i as int + 1).drop_last() == self.rows@.take(i as int));
            }
            if self.rows[i].is_focusable() {
                out.push(i);
            }
            i += 1;
        }
        proof {
            assert(self.rows@.take(self.rows@.len() as int) == self.rows@);
        }
        out
    }

    /// The row at `index`, if there is one.
    pub fn row(&self, index: usize) -> (r: Option<DisplayRow>)
        ensures
            index < self.rows@.len() ==> r == Some(self.rows@[index as int]),
            index >= self.rows@.len() ==> r is None,
    {
        if index < self.rows.len() {
            Some(self.rows[index])
        } else {
            None
        }
    }
}

impl DisplayRow {
    /// Every row but a spacer can take the focus.
    pub fn is_focusable(self) -> (r: bool)
        ensures
            r == !(self is Spacer),
    {
        match self {
            DisplayRow::Spacer => false,
            _ => true,
        }
    }
}

/// Map a focus index (among focusable rows) to a display row index.
pub fn focus_to_row(focusable: &[usize], focus_index: usize) -> (r: Option<usize>)
    ensures
        focus_index < focusable@.len() ==> r == Some(focusable@[focus_index as int]),
        focus_index >= focusable@.len() ==> r is None,
{
    if focus_index < focusable.len() {
        Some(focusable[focus_index])
    } else {
        None
    }
}

/// `v` clamped to `lo..=hi`.
pub open spec fn clamp(v: int, lo: int, hi: int) -> int {
    if v < lo {
        lo
    } else if v > hi {
        hi
    } else {
        v
    }
}

/// Move within focusable rows, stopping at the ends.
pub fn move_focus(focusable: &[usize], current: usize, delta: isize) -> (r: usize)
    requires
        focusable@.len() > 0 ==> isize::MIN <= (current as isize) + delta <= isize::MAX,
    ensures
        focusable@.len() == 0 ==> r == 0,
        focusable@.len() > 0 ==> r == clamp((current as isize) + delta, 0, focusable@.len() - 1),
{
    if focusable.len() == 0 {
        return 0;
    }
    let last = focusable.len() - 1;
    let target = current as isize + delta;
    if target < 0 {
        0
    } else if target as usize > last {
        last
    } else {
        target as usize
    }
}

/// Keep the focused display row visible in a viewport of `visible_rows` lines.
pub fn scroll_for_focus(
    focusable: &[usize],
    focus_index: usize,
    current_scroll: usize,
    visible_rows: usize,
) -> (r: usize)
    requires
        visible_rows > 0 && focus_index < focusable@.len() && focusable@[focus_index as int] >= current_scroll
            ==> current_scroll + visible_rows <= usize::MAX,
    ensures
        visible_rows == 0 ==> r == 0,
        visible_rows > 0 && focus_index >= focusable@.len() ==> r == current_scroll,
        visible_rows > 0 && focus_index < focusable@.len() ==> {
            let row = focusable@[focus_index as int];
            if row < current_scroll {
                r == row
            } else if row >= current_scroll + visible_rows {
                r == row - (visible_rows - 1)
            } else {
                r == current_scroll
            }
        },
{
    if visible_rows == 0 {
        return 0;
    }
    if focus_index >= focusable.len() {
        return current_scroll;
    }
    let row = focusable[focus_index];
    if row < current_scroll {
        return row;
    }
    if row >= current_scroll + visible_rows {
        return row - (visible_rows - 1);
    }
    current_scroll
}

/// `▸ name  (count)` for a collapsed group, `▾ name` for an expanded one.
pub open spec fn spec_header_label(g: WorkflowGroup) -> Seq<char> {
    if g.collapsed {
        "▸"@ + " "@ + spec_workflow_name(g.workflow_path@) + "  ("@ + dec_string(g.items@.len()) + ")"@
    } else {
        "▾"@ + " "@ + spec_workflow_name(g.workflow_path@)
    }
}

/// The header line of a group.
pub fn group_header_label(group: &WorkflowGroup) -> (r: String)
    requires
        group.items@.len() <= u64::MAX,
    ensures
        r@ == spec_header_label(*group),
{
    proof {
        reveal_strlit("▸");
        reveal_strlit("▾");
        reveal_strlit(" ");
        reveal_strlit("  (");
        reveal_strlit(")");
    }
    let name = group.workflow_name();
    let mut out = String::new();
    if group.collapsed {
        push_str(&mut out, "▸");
        push_str(&mut out, " ");
        push_str(&mut out, name.as_str());
        push_str(&mut out, "  (");
        push_decimal(&mut out, group.items.len() as u64);
        push_str(&mut out, ")");
    } else {
        push_str(&mut out, "▾");
        push_str(&mut out, " ");
        push_str(&mut out, name.as_str());
    }
    out
}


/// The action of a `uses:` value: the text before its first `@`.
pub open spec fn spec_short_action(raw: Seq<char>) -> Seq<char> {
    crate::text::split_any(raw, seq!['@'])[0]
}

pub proof fn lemma_split_any_nonempty(s: Seq<char>, seps: Seq<char>)
    ensures
        crate::text::split_any(s, seps).len() > 0,
{
}

/// The action of a `uses:` value, without its ref.
pub fn short_action(raw: &str) -> (r: String)
    ensures
        r@ == spec_short_action(raw@),
{
    let cs = crate::text::chars_of(raw);
    let seps = vec!['@'];
    let parts = crate::text::split_on_any(&cs, &seps);
    proof {
        assert(seps@ =~= seq!['@']);
        lemma_split_any_nonempty(cs@, seq!['@']);
        assert(parts@.map_values(|l: Vec<char>| l@)[0] == parts@[0]@);
    }
    crate::text::string_of(&parts[0])
}

} // verus!
