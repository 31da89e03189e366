//! The state of the line-oriented update picker: which updates are
//! selected, which workflow files are folded, and the rows that show.
use vstd::prelude::*;

pub mod rows;

use crate::model::Action;
use crate::text::str_eq;

verus! {

/// Why the picker ended without a selection.
#[derive(Debug, Clone, PartialEq, Eq)]
pub enum Error {
    /// Standard input or output is not a terminal.
    NotATerminal,
    /// The user canceled.
    Canceled,
    /// The user interrupted with Ctrl-C.
    Interrupted,
    /// Reading the terminal failed (the error's text).
    Io(String),
}

impl Error {
    /// The user-facing text of this error.
    pub fn message(&self) -> (r: String)
        ensures
            self is NotATerminal ==> r@ == "interactive selection requires a terminal"@,
            self is Canceled ==> r@ == "selection canceled"@,
            self is Interrupted ==> r@ == "selection interrupted"@,
            self matches Error::Io(e) ==> r@ == e@,
    {
        proof {
            reveal_strlit("interactive selection requires a terminal");
            reveal_strlit("selection canceled");
            reveal_strlit("selection interrupted");
        }
        match self {
            Error::NotATerminal => "interactive selection requires a terminal".to_string(),
            Error::Canceled => "selection canceled".to_string(),
            Error::Interrupted => "selection interrupted".to_string(),
            Error::Io(e) => e.clone(),
        }
    }
}

/// One row of the picker.
#[derive(Debug, Clone, PartialEq, Eq)]
pub enum VisibleRow {
    /// The header of a workflow file.
    FileHeader { file: String },
    /// An update, by its index among the actions.
    Update { original_index: usize },
}

/// The picker's state.
#[derive(Debug, Clone)]
pub struct State {
    pub selected: Vec<bool>,
    /// The workflow files whose updates are folded away, each once.
    pub collapsed: Vec<String>,
    pub cursor: usize,
    pub h_scroll: usize,
}

/// The indices of the selected entries, in order.
pub open spec fn indices_of(sel: Seq<bool>) -> Seq<usize>
    decreases sel.len(),
{
    if sel.len() == 0 {
        Seq::empty()
    } else if sel.last() {
        indices_of(sel.drop_last()).push((sel.len() - 1) as usize)
    } else {
        indices_of(sel.drop_last())
    }
}

impl State {
    /// Nothing selected, nothing folded, at the top.
    pub fn new(count: usize) -> (r: Self)
        ensures
            r.selected@ == Seq::new(count as nat, |i: int| false),
            r.collapsed@.len() == 0,
            r.cursor == 0,
            r.h_scroll == 0,
    {
        let mut selected: Vec<bool> = Vec::new();
        let mut i: usize = 0;
        while i < count
            invariant
                0 <= i <= count,
                selected@ == Seq::new(i as nat, |k: int| false),
            decreases count - i,
        {
            selected.push(false);
            proof {
                assert(selected@ =~= Seq::new((i + 1) as nat, |k: int| false));
            }
            i += 1;
        }
        State { selected, collapsed: Vec::new(), cursor: 0, h_scroll: 0 }
    }

    /// The indices of the selected updates, in order.
    pub fn selected_indices(&self) -> (r: Vec<usize>)
        ensures
            r@ == indices_of(self.selected@),
    {
        let mut out: Vec<usize> = Vec::new();
        let mut i: usize = 0;
        while i < self.selected.len()
            invariant
                0 <= i <= self.selected.len(),
                out@ == indices_of(self.selected@.take(i as int)),
            decreases self.selected.len() - i,
        {
            proof {
                assert(self.selected@.take(i as int + 1).drop_last() == self.selected@.take(i as int));
            }
            if self.selected[i] {
                out.push(i);
            }
            i += 1;
        }
        proof {
            assert(self.selected@.take(self.selected@.len() as int) == self.selected@);
        }
        out
    }
}

/// `a` sorts before `b`: the first differing character is smaller, or `a`
/// is a proper prefix of `b`.
pub open spec fn text_lt(a: Seq<char>, b: Seq<char>) -> bool
    decreases a.len(),
{
    if a.len() == 0 {
        b.len() > 0
    } else if b.len() == 0 {
        false
    } else if a[0] != b[0] {
        (a[0] as u32) < (b[0] as u32)
    } else {
        text_lt(a.drop_first(), b.drop_first())
    }
}

pub(crate) fn less_text(a: &str, b: &str) -> (r: bool)
    ensures
        r == text_lt(a@, b@),
{
    let x = crate::text::chars_of(a);
    let y = crate::text::chars_of(b);
    let mut i: usize = 0;
    proof {
        assert(a@.skip(0) == a@);
        assert(b@.skip(0) == b@);
    }
    while i < x.len() && i < y.len() && x[i] == y[i]
        invariant
            0 <= i <= x.len(),
            i <= y.len(),
            x@ == a@,
            y@ == b@,
            text_lt(a@, b@) == text_lt(a@.skip(i as int), b@.skip(i as int)),
        decreases x.len() - i,
    {
        proof {
            assert(a@.skip(i as int).drop_first() == a@.skip(i as int + 1));
            assert(b@.skip(i as int).drop_first() == b@.skip(i as int + 1));
        }
        i += 1;
    }
    if i == x.len() {
        i < y.len()
    } else if i == y.len() {
        false
    } else {
        (x[i] as u32) < (y[i] as u32)
    }
}

/// The picker's order of actions: by workflow file, and within a file in
/// their original order (a stable sort). Each entry is an action's index.
pub open spec fn insert_by_file(s: Seq<usize>, x: usize, files: Seq<Seq<char>>) -> Seq<usize>
    decreases s.len(),
{
    if s.len() == 0 {
        seq![x]
    } else if text_lt(files[x as int], files[s[0] as int]) {
        seq![x] + s
    } else {
        seq![s[0]] + insert_by_file(s.drop_first(), x, files)
    }
}

pub open spec fn sort_by_file(n: nat, files: Seq<Seq<char>>) -> Seq<usize>
    decreases n,
{
    if n == 0 {
        Seq::empty()
    } else {
        insert_by_file(sort_by_file((n - 1) as nat, files), (n - 1) as usize, files)
    }
}

proof fn lemma_insert_by_file(s: Seq<usize>, x: usize, files: Seq<Seq<char>>, j: int)
    requires
        0 <= j <= s.len(),
        forall|k: int| 0 <= k < j ==> !text_lt(files[x as int], #[trigger] files[s[k] as int]),
        j < s.len() ==> text_lt(files[x as int], files[s[j] as int]),
    ensures
        insert_by_file(s, x, files) == s.take(j) + seq![x] + s.skip(j),
    decreases s.len(),
{
    if s.len() == 0 {
        assert(s.take(j) + seq![x] + s.skip(j) =~= seq![x]);
    } else if j == 0 {
        assert(s.take(0) + seq![x] + s.skip(0) =~= seq![x] + s);
    } else {
        let t = s.drop_first();
        assert forall|k: int| 0 <= k < j - 1 implies !text_lt(files[x as int], #[trigger] files[t[k] as int]) by {
            assert(t[k] == s[k + 1]);
        }
        lemma_insert_by_file(t, x, files, j - 1);
        assert(seq![s[0]] + (t.take(j - 1) + seq![x] + t.skip(j - 1)) =~= s.take(j) + seq![x] + s.skip(j));
    }
}

pub open spec fn all_below(s: Seq<usize>, n: int) -> bool {
    forall|k: int| 0 <= k < s.len() ==> (#[trigger] s[k]) < n
}

proof fn lemma_insert_below(s: Seq<usize>, x: usize, files: Seq<Seq<char>>, n: int)
    requires
        all_below(s, n),
        x < n,
    ensures
        all_below(insert_by_file(s, x, files), n),
        insert_by_file(s, x, files).len() == s.len() + 1,
    decreases s.len(),
{
    if s.len() > 0 && !text_lt(files[x as int], files[s[0] as int]) {
        let t = s.drop_first();
        assert forall|k: int| 0 <= k < t.len() implies (#[trigger] t[k]) < n by {
            assert(t[k] == s[k + 1]);
        }
        lemma_insert_below(t, x, files, n);
        let r = seq![s[0]] + insert_by_file(t, x, files);
        assert forall|k: int| 0 <= k < r.len() implies (#[trigger] r[k]) < n by {
            if k > 0 {
                assert(r[k] == insert_by_file(t, x, files)[k - 1]);
            }
        }
    } else if s.len() > 0 {
        let r = seq![x] + s;
        assert forall|k: int| 0 <= k < r.len() implies (#[trigger] r[k]) < n by {
            if k > 0 {
                assert(r[k] == s[k - 1]);
            }
        }
    }
}

pub open spec fn files_of(actions: Seq<Action>) -> Seq<Seq<char>> {
    actions.map_values(|a: Action| a.file@)
}

pub open spec fn folded(collapsed: Seq<String>, file: Seq<char>) -> bool {
    exists|k: int| 0 <= k < collapsed.len() && (#[trigger] collapsed[k])@ == file
}

/// A row as values.
pub ghost enum RowView {
    Header(Seq<char>),
    Update(usize),
}

pub open spec fn row_view(r: VisibleRow) -> RowView {
    match r {
        VisibleRow::FileHeader { file } => RowView::Header(file@),
        VisibleRow::Update { original_index } => RowView::Update(original_index),
    }
}

/// The rows for actions in `order`: a header when the file changes, and each
/// update unless its file is folded.
pub open spec fn rows_for(order: Seq<usize>, files: Seq<Seq<char>>, collapsed: Seq<String>) -> Seq<RowView>
    decreases order.len(),
{
    if order.len() == 0 {
        Seq::empty()
    } else {
        let rest = rows_for(order.drop_last(), files, collapsed);
        let i = order.last();
        let file = files[i as int];
        let header = if order.len() == 1 || files[order[order.len() - 2] as int] != file {
            seq![RowView::Header(file)]
        } else {
            Seq::empty()
        };
        let update = if folded(collapsed, file) {
            Seq::empty()
        } else {
            seq![RowView::Update(i)]
        };
        rest + header + update
    }
}

pub(crate) fn is_folded(collapsed: &[String], file: &str) -> (r: bool)
    ensures
        r == folded(collapsed@, file@),
{
    let mut k: usize = 0;
    while k < collapsed.len()
        invariant
            0 <= k <= collapsed.len(),
            forall|j: int| 0 <= j < k ==> (#[trigger] collapsed@[j])@ != file@,
        decreases collapsed.len() - k,
    {
        if str_eq(collapsed[k].as_str(), file) {
            return true;
        }
        k += 1;
    }
    false
}

fn file_order(actions: &[Action]) -> (r: Vec<usize>)
    ensures
        r@ == sort_by_file(actions@.len(), files_of(actions@)),
        all_below(r@, actions@.len() as int),
{
    let ghost files = files_of(actions@);
    let mut out: Vec<usize> = Vec::new();
    let mut i: usize = 0;
    while i < actions.len()
        invariant
            0 <= i <= actions.len(),
            files == files_of(actions@),
            out@ == sort_by_file(i as nat, files),
            all_below(out@, i as int),
        decreases actions.len() - i,
    {
        let mut j: usize = 0;
        let mut stop = false;
        while !stop && j < out.len()
            invariant
                0 <= j <= out.len(),
                i < actions.len(),
                files == files_of(actions@),
                all_below(out@, i as int),
                forall|k: int| 0 <= k < j ==> !text_lt(files[i as int], #[trigger] files[out@[k] as int]),
                stop ==> j < out.len() && text_lt(files[i as int], files[out@[j as int] as int]),
            decreases out.len() - j + if stop {
                0int
            } else {
                1int
            },
        {
            let other = out[j];
            proof {
                assert(files[i as int] == actions@[i as int].file@);
                assert(files[other as int] == actions@[other as int].file@);
            }
            if less_text(actions[i].file.as_str(), actions[other].file.as_str()) {
                stop = true;
            } else {
                j += 1;
            }
        }
        proof {
            lemma_insert_by_file(out@, i as usize, files, j as int);
            lemma_insert_below(out@, i as usize, files, i as int + 1);
            assert forall|k: int| 0 <= k < out@.len() implies (#[trigger] out@[k]) < i + 1 by {}
        }
        out.insert(j, i);
        i += 1;
    }
    out
}

/// The rows of the picker: actions grouped by workflow file in file order,
/// each group under a header, its updates hidden when the file is folded.
pub fn visible_rows(actions: &[Action], collapsed: &[String]) -> (r: Vec<VisibleRow>)
    ensures
        r@.map_values(|v: VisibleRow| row_view(v)) == rows_for(
            sort_by_file(actions@.len(), files_of(actions@)),
            files_of(actions@),
            collapsed@,
        ),
{
    let order = file_order(actions);
    let ghost files = files_of(actions@);
    let mut rows: Vec<VisibleRow> = Vec::new();
    let mut k: usize = 0;
    while k < order.len()
        invariant
            0 <= k <= order.len(),
            files == files_of(actions@),
            all_below(order@, actions@.len() as int),
            rows@.map_values(|v: VisibleRow| row_view(v)) == rows_for(order@.take(k as int), files, collapsed@),
        decreases order.len() - k,
    {
        let i = order[k];
        let ghost before = rows@.map_values(|v: VisibleRow| row_view(v));
        proof {
            assert(order@.take(k as int + 1).drop_last() == order@.take(k as int));
            assert(order@.take(k as int + 1).last() == i);
            assert(files[i as int] == actions@[i as int].file@);
            if k > 0 {
                assert(order@.take(k as int + 1)[k - 1] == order@[k - 1]);
                assert(files[order@[k - 1] as int] == actions@[order@[k - 1] as int].file@);
            }
        }
        let file = actions[i].file.as_str();
        let new_file = k == 0 || !str_eq(actions[order[k - 1]].file.as_str(), file);
        if new_file {
            rows.push(VisibleRow::FileHeader { file: file.to_string() });
        }
        if !is_folded(collapsed, file) {
            rows.push(VisibleRow::Update { original_index: i });
        }
        proof {
            assert(rows@.map_values(|v: VisibleRow| row_view(v)) =~= rows_for(
                order@.take(k as int + 1),
                files,
                collapsed@,
            ));
        }
        k += 1;
    }
    proof {
        assert(order@.take(order@.len() as int) == order@);
    }
    rows
}

/// The file of the row under the cursor: the header's file, the file of the
/// update's action, or nothing past the end.
pub fn cursor_file<'a>(visible: &'a [VisibleRow], cursor: usize, actions: &'a [Action]) -> (r: &'a str)
    requires
        forall|k: int|
            0 <= k < visible@.len() ==> (#[trigger] visible@[k] matches VisibleRow::Update {
                original_index,
            } ==> original_index < actions@.len()),
    ensures
        cursor >= visible@.len() ==> r@ == ""@,
        cursor < visible@.len() ==> match visible@[cursor as int] {
            VisibleRow::FileHeader { file } => r@ == file@,
            VisibleRow::Update { original_index } => r@ == actions@[original_index as int].file@,
        },
{
    if cursor >= visible.len() {
        proof {
            reveal_strlit("");
        }
        return "";
    }
    match &visible[cursor] {
        VisibleRow::FileHeader { file } => file.as_str(),
        VisibleRow::Update { original_index } => actions[*original_index].file.as_str(),
    }
}


/// A key press, as the picker reads it.
#[derive(Clone, Copy, Debug, PartialEq, Eq, Structural)]
pub enum Key {
    Up,
    Down,
    Toggle,
    ToggleAll,
    ToggleFile,
    ToggleCollapse,
    PageUp,
    PageDown,
    Home,
    End,
    Invert,
    SelectNone,
    Accept,
    Cancel,
    Resize,
    ScrollLeft,
    ScrollRight,
    Ignore,
}

/// Every marked entry is selected.
pub open spec fn all_marked_on(sel: Seq<bool>, mask: Seq<bool>) -> bool {
    forall|i: int| 0 <= i < sel.len() && #[trigger] mask[i] ==> sel[i]
}

/// The marked entries all set to the opposite of "all of them were on".
pub open spec fn flip_marked(sel: Seq<bool>, mask: Seq<bool>) -> Seq<bool> {
    let on = all_marked_on(sel, mask);
    Seq::new(sel.len(), |i: int| if mask[i] { !on } else { sel[i] })
}

/// Which actions belong to `file`.
pub open spec fn file_mask(actions: Seq<Action>, file: Seq<char>) -> Seq<bool> {
    Seq::new(actions.len(), |i: int| actions[i].file@ == file)
}

fn mask_of_file(actions: &[Action], file: &str) -> (r: Vec<bool>)
    ensures
        r@ == file_mask(actions@, file@),
{
    let mut out: Vec<bool> = Vec::new();
    let mut i: usize = 0;
    while i < actions.len()
        invariant
            0 <= i <= actions.len(),
            out@ == file_mask(actions@.take(i as int), file@),
        decreases actions.len() - i,
    {
        out.push(str_eq(actions[i].file.as_str(), file));
        proof {
            assert(out@ =~= file_mask(actions@.take(i as int + 1), file@));
        }
        i += 1;
    }
    proof {
        assert(actions@.take(actions@.len() as int) == actions@);
    }
    out
}

/// Turns the marked entries off when all of them are on, else on.
pub fn toggle_marked(sel: &mut Vec<bool>, mask: &[bool])
    requires
        old(sel)@.len() == mask@.len(),
    ensures
        final(sel)@ == flip_marked(old(sel)@, mask@),
{
    let mut on = true;
    let mut i: usize = 0;
    while i < sel.len()
        invariant
            0 <= i <= sel.len(),
            sel@.len() == mask@.len(),
            on == forall|k: int| 0 <= k < i && #[trigger] mask@[k] ==> sel@[k],
        decreases sel.len() - i,
    {
        if mask[i] && !sel[i] {
            on = false;
        }
        i += 1;
    }
    let ghost before = sel@;
    let mut j: usize = 0;
    while j < sel.len()
        invariant
            0 <= j <= sel.len(),
            sel@.len() == before.len(),
            before.len() == mask@.len(),
            on == all_marked_on(before, mask@),
            forall|k: int| 0 <= k < j ==> #[trigger] sel@[k] == (if mask@[k] { !on } else { before[k] }),
            forall|k: int| j <= k < sel@.len() ==> #[trigger] sel@[k] == before[k],
        decreases sel.len() - j,
    {
        if mask[j] {
            sel.set(j, !on);
        }
        j += 1;
    }
    proof {
        assert(sel@ =~= flip_marked(before, mask@));
    }
}

/// Sets every entry to `value`.
pub fn fill_all(sel: &mut Vec<bool>, value: bool)
    ensures
        final(sel)@ == Seq::new(old(sel)@.len(), |i: int| value),
{
    let mut j: usize = 0;
    while j < sel.len()
        invariant
            0 <= j <= sel.len(),
            sel@.len() == old(sel)@.len(),
            forall|k: int| 0 <= k < j ==> #[trigger] sel@[k] == value,
        decreases sel.len() - j,
    {
        sel.set(j, value);
        j += 1;
    }
    proof {
        assert(sel@ =~= Seq::new(old(sel)@.len(), |i: int| value));
    }
}

/// Flips every entry.
pub fn invert_all(sel: &mut Vec<bool>)
    ensures
        final(sel)@ == Seq::new(old(sel)@.len(), |i: int| !old(sel)@[i]),
{
    let mut j: usize = 0;
    while j < sel.len()
        invariant
            0 <= j <= sel.len(),
            sel@.len() == old(sel)@.len(),
            forall|k: int| 0 <= k < j ==> #[trigger] sel@[k] == !old(sel)@[k],
            forall|k: int| j <= k < sel@.len() ==> #[trigger] sel@[k] == old(sel)@[k],
        decreases sel.len() - j,
    {
        let v = sel[j];
        sel.set(j, !v);
        j += 1;
    }
    proof {
        assert(sel@ =~= Seq::new(old(sel)@.len(), |i: int| !old(sel)@[i]));
    }
}

/// Whether every entry is on.
pub open spec fn all_on(sel: Seq<bool>) -> bool {
    forall|i: int| 0 <= i < sel.len() ==> #[trigger] sel[i]
}

pub(crate) fn every_on(sel: &[bool]) -> (r: bool)
    ensures
        r == all_on(sel@),
{
    let mut i: usize = 0;
    while i < sel.len()
        invariant
            0 <= i <= sel.len(),
            forall|k: int| 0 <= k < i ==> #[trigger] sel@[k],
        decreases sel.len() - i,
    {
        if !sel[i] {
            return false;
        }
        i += 1;
    }
    true
}

/// Folds `file` when it is open, opens it when it is folded.
pub fn toggle_folded(collapsed: &mut Vec<String>, file: &str)
    ensures
        forall|f: Seq<char>| #[trigger] folded(final(collapsed)@, f) == if f == file@ {
            !folded(old(collapsed)@, file@)
        } else {
            folded(old(collapsed)@, f)
        },
{
    if is_folded(collapsed, file) {
        let mut kept: Vec<String> = Vec::new();
        let mut k: usize = 0;
        while k < collapsed.len()
            invariant
                0 <= k <= collapsed.len(),
                collapsed@ == old(collapsed)@,
                forall|j: int| 0 <= j < kept@.len() ==> (#[trigger] kept@[j])@ != file@,
                forall|f: Seq<char>| f != file@ ==> (#[trigger] folded(kept@, f) <==> exists|j: int|
                    0 <= j < k && (#[trigger] collapsed@[j])@ == f),
            decreases collapsed.len() - k,
        {
            if !str_eq(collapsed[k].as_str(), file) {
                let ghost before = kept@;
                kept.push(collapsed[k].clone());
                proof {
                    assert forall|f: Seq<char>| f != file@ implies (#[trigger] folded(kept@, f) <==> exists|j: int|
                        0 <= j < k + 1 && (#[trigger] collapsed@[j])@ == f) by {
                        if folded(kept@, f) {
                            let j = choose|j: int| 0 <= j < kept@.len() && (#[trigger] kept@[j])@ == f;
                            if j < before.len() {
                                assert(kept@[j] == before[j]);
                                assert(folded(before, f));
                            }
                        }
                        if exists|j: int| 0 <= j < k + 1 && (#[trigger] collapsed@[j])@ == f {
                            let j = choose|j: int| 0 <= j < k + 1 && (#[trigger] collapsed@[j])@ == f;
                            if j < k {
                                assert(folded(before, f));
                                let i = choose|i: int| 0 <= i < before.len() && (#[trigger] before[i])@ == f;
                                assert(kept@[i] == before[i]);
                            } else {
                                assert(kept@[before.len() as int] == collapsed@[k as int]);
                            }
                        }
                    }
                }
            } else {
                proof {
                    assert forall|f: Seq<char>| f != file@ implies (#[trigger] folded(kept@, f) <==> exists|j: int|
                        0 <= j < k + 1 && (#[trigger] collapsed@[j])@ == f) by {
                        if exists|j: int| 0 <= j < k + 1 && (#[trigger] collapsed@[j])@ == f {
                            let j = choose|j: int| 0 <= j < k + 1 && (#[trigger] collapsed@[j])@ == f;
                            assert(j < k);
                        }
                    }
                }
            }
            k += 1;
        }
        *collapsed = kept;
        proof {
            assert(!folded(collapsed@, file@));
        }
    } else {
        let ghost before = collapsed@;
        collapsed.push(file.to_string());
        proof {
            assert(collapsed@[before.len() as int]@ == file@);
            assert forall|f: Seq<char>| #[trigger] folded(collapsed@, f) == if f == file@ {
                !folded(before, file@)
            } else {
                folded(before, f)
            } by {
                if folded(collapsed@, f) && f != file@ {
                    let j = choose|j: int| 0 <= j < collapsed@.len() && (#[trigger] collapsed@[j])@ == f;
                    assert(j < before.len());
                    assert(collapsed@[j] == before[j]);
                }
                if folded(before, f) {
                    let j = choose|j: int| 0 <= j < before.len() && (#[trigger] before[j])@ == f;
                    assert(collapsed@[j] == before[j]);
                }
            }
        }
    }
}

/// The file of the row at `cursor`, as [`cursor_file`] finds it.
pub open spec fn spec_cursor_file(visible: Seq<VisibleRow>, cursor: int, actions: Seq<Action>) -> Seq<char> {
    if cursor < 0 || cursor >= visible.len() {
        Seq::empty()
    } else {
        match visible[cursor] {
            VisibleRow::FileHeader { file } => file@,
            VisibleRow::Update { original_index } => actions[original_index as int].file@,
        }
    }
}

/// The rows that one page moves over in a terminal `height` rows high.
pub open spec fn page_rows(height: u16) -> int {
    if height >= 5 {
        height - 4
    } else {
        1
    }
}

/// Where the cursor goes on `key`, among `n` rows.
pub open spec fn cursor_after(key: Key, c: int, n: int, height: u16) -> int {
    match key {
        Key::Up => if c > 0 {
            c - 1
        } else {
            n - 1
        },
        Key::Down => if c + 1 < n {
            c + 1
        } else {
            0
        },
        Key::PageUp => if c >= page_rows(height) {
            c - page_rows(height)
        } else {
            0
        },
        Key::PageDown => if c + page_rows(height) < n - 1 {
            c + page_rows(height)
        } else {
            n - 1
        },
        Key::Home => 0,
        Key::End => n - 1,
        _ => c,
    }
}

/// The selection after `key`.
pub open spec fn selection_after(key: Key, sel: Seq<bool>, visible: Seq<VisibleRow>, c: int, actions: Seq<Action>) -> Seq<bool> {
    match key {
        Key::Toggle => match visible[c] {
            VisibleRow::FileHeader { file } => flip_marked(sel, file_mask(actions, file@)),
            VisibleRow::Update { original_index } => sel.update(original_index as int, !sel[original_index as int]),
        },
        Key::ToggleAll => Seq::new(sel.len(), |i: int| !all_on(sel)),
        Key::ToggleFile => flip_marked(sel, file_mask(actions, spec_cursor_file(visible, c, actions))),
        Key::Invert => Seq::new(sel.len(), |i: int| !sel[i]),
        Key::SelectNone => Seq::new(sel.len(), |i: int| false),
        _ => sel,
    }
}

/// The rows point at actions that exist.
pub open spec fn rows_in_range(visible: Seq<VisibleRow>, n: int) -> bool {
    forall|k: int| 0 <= k < visible.len() ==> (#[trigger] visible[k] matches VisibleRow::Update {
        original_index,
    } ==> original_index < n)
}

impl State {
    /// Keeps the cursor on one of `rows` rows: past the end it moves to the
    /// last row (or to the top when there is none).
    pub fn clamp_cursor(&mut self, rows: usize)
        ensures
            final(self).cursor == (if old(self).cursor >= rows {
                if rows > 0 {
                    rows - 1
                } else {
                    0
                }
            } else {
                old(self).cursor as int
            }),
            final(self).selected == old(self).selected,
            final(self).collapsed == old(self).collapsed,
            final(self).h_scroll == old(self).h_scroll,
    {
        if self.cursor >= rows {
            self.cursor = if rows > 0 {
                rows - 1
            } else {
                0
            };
        }
    }

    /// Applies one key to the picker showing `visible` for `actions` in a
    /// terminal `height` rows high. `None` means the picker goes on;
    /// otherwise it ends with the selected indices or canceled.
    pub fn handle_key(&mut self, key: Key, visible: &[VisibleRow], actions: &[Action], height: u16) -> (r:
        Option<Result<Vec<usize>, Error>>)
        requires
            old(self).cursor < visible@.len(),
            old(self).selected@.len() == actions@.len(),
            rows_in_range(visible@, actions@.len() as int),
            key == Key::ScrollRight ==> old(self).h_scroll + 4 <= usize::MAX,
        ensures
            final(self).cursor == cursor_after(key, old(self).cursor as int, visible@.len() as int, height),
            final(self).selected@ == selection_after(
                key,
                old(self).selected@,
                visible@,
                old(self).cursor as int,
                actions@,
            ),
            key == Key::ToggleCollapse ==> forall|f: Seq<char>| #[trigger] folded(final(self).collapsed@, f) == if f == spec_cursor_file(visible@, old(self).cursor as int, actions@) {
                !folded(old(self).collapsed@, f)
            } else {
                folded(old(self).collapsed@, f)
            },
            key != Key::ToggleCollapse ==> final(self).collapsed@ == old(self).collapsed@,
            final(self).h_scroll == match key {
                Key::ScrollLeft => if old(self).h_scroll >= 4 {
                    old(self).h_scroll - 4
                } else {
                    0
                },
                Key::ScrollRight => old(self).h_scroll + 4,
                _ => old(self).h_scroll as int,
            },
            match key {
                Key::Accept => r matches Some(Ok(v)) && v@ == indices_of(old(self).selected@),
                Key::Cancel => r == Some(Err::<Vec<usize>, Error>(Error::Canceled)),
                _ => r is None,
            },
    {
        let n = visible.len();
        let page: usize = if height >= 5 {
            (height - 4) as usize
        } else {
            1
        };
        match key {
            Key::Up => {
                self.cursor = if self.cursor > 0 {
                    self.cursor - 1
                } else {
                    n - 1
                };
            },
            Key::Down => {
                self.cursor = if self.cursor + 1 < n {
                    self.cursor + 1
                } else {
                    0
                };
            },
            Key::Toggle => {
                match &visible[self.cursor] {
                    VisibleRow::FileHeader { file } => {
                        let mask = mask_of_file(actions, file.as_str());
                        toggle_marked(&mut self.selected, &mask);
                    },
                    VisibleRow::Update { original_index } => {
                        let i = *original_index;
                        let v = self.selected[i];
                        self.selected.set(i, !v);
                    },
                }
            },
            Key::ToggleAll => {
                let all = every_on(&self.selected);
                fill_all(&mut self.selected, !all);
            },
            Key::ToggleFile => {
                let file = cursor_file(visible, self.cursor, actions);
                let mask = mask_of_file(actions, file);
                toggle_marked(&mut self.selected, &mask);
            },
            Key::ToggleCollapse => {
                let file = cursor_file(visible, self.cursor, actions);
                toggle_folded(&mut self.collapsed, file);
            },
            Key::PageUp => {
                self.cursor = if self.cursor >= page {
                    self.cursor - page
                } else {
                    0
                };
            },
            Key::PageDown => {
                self.cursor = if page < n - 1 - self.cursor {
                    self.cursor + page
                } else {
                    n - 1
                };
            },
            Key::Home => {
                self.cursor = 0;
            },
            Key::End => {
                self.cursor = n - 1;
            },
            Key::Invert => {
                invert_all(&mut self.selected);
            },
            Key::SelectNone => {
                fill_all(&mut self.selected, false);
            },
            Key::ScrollLeft => {
                self.h_scroll = if self.h_scroll >= 4 {
                    self.h_scroll - 4
                } else {
                    0
                };
            },
            Key::ScrollRight => {
                self.h_scroll = self.h_scroll + 4;
            },
            Key::Accept => {
                return Some(Ok(self.selected_indices()));
            },
            Key::Cancel => {
                return Some(Err(Error::Canceled));
            },
            Key::Resize | Key::Ignore => {},
        }
        None
    }
}

/// A key press as the terminal reports it: a character, or one of the
/// named keys the picker knows.
#[derive(Debug, Clone, Copy, PartialEq, Eq, Structural)]
pub enum Press {
    Char(char),
    Up,
    Down,
    Left,
    Right,
    Enter,
    Tab,
    PageUp,
    PageDown,
    Home,
    End,
    Esc,
    /// Any other key.
    Other,
}

/// What a key press means to the picker: Ctrl-C interrupts, and each known
/// key has its command.
pub open spec fn spec_key_of(p: Press, ctrl: bool) -> Result<Key, Error> {
    match p {
        Press::Up => Ok(Key::Up),
        Press::Down => Ok(Key::Down),
        Press::Left => Ok(Key::ScrollLeft),
        Press::Right => Ok(Key::ScrollRight),
        Press::Enter => Ok(Key::Accept),
        Press::Tab => Ok(Key::ToggleCollapse),
        Press::PageUp => Ok(Key::PageUp),
        Press::PageDown => Ok(Key::PageDown),
        Press::Home => Ok(Key::Home),
        Press::End => Ok(Key::End),
        Press::Esc => Ok(Key::Cancel),
        Press::Other => Ok(Key::Ignore),
        Press::Char(c) => if c == 'k' {
            Ok(Key::Up)
        } else if c == 'j' {
            Ok(Key::Down)
        } else if c == ' ' || c == 'x' {
            Ok(Key::Toggle)
        } else if c == 'a' {
            Ok(Key::ToggleAll)
        } else if c == 'f' {
            Ok(Key::ToggleFile)
        } else if c == 'i' {
            Ok(Key::Invert)
        } else if c == 'n' {
            Ok(Key::SelectNone)
        } else if c == 'q' {
            Ok(Key::Cancel)
        } else if c == 'c' && ctrl {
            Err(Error::Interrupted)
        } else {
            Ok(Key::Ignore)
        },
    }
}

/// The picker's reading of a key press (`ctrl` when Control was held).
pub fn key_of(p: Press, ctrl: bool) -> (r: Result<Key, Error>)
    ensures
        r == spec_key_of(p, ctrl),
{
    match p {
        Press::Up => Ok(Key::Up),
        Press::Down => Ok(Key::Down),
        Press::Left => Ok(Key::ScrollLeft),
        Press::Right => Ok(Key::ScrollRight),
        Press::Enter => Ok(Key::Accept),
        Press::Tab => Ok(Key::ToggleCollapse),
        Press::PageUp => Ok(Key::PageUp),
        Press::PageDown => Ok(Key::PageDown),
        Press::Home => Ok(Key::Home),
        Press::End => Ok(Key::End),
        Press::Esc => Ok(Key::Cancel),
        Press::Other => Ok(Key::Ignore),
        Press::Char(c) => if c == 'k' {
            Ok(Key::Up)
        } else if c == 'j' {
            Ok(Key::Down)
        } else if c == ' ' || c == 'x' {
            Ok(Key::Toggle)
        } else if c == 'a' {
            Ok(Key::ToggleAll)
        } else if c == 'f' {
            Ok(Key::ToggleFile)
        } else if c == 'i' {
            Ok(Key::Invert)
        } else if c == 'n' {
            Ok(Key::SelectNone)
        } else if c == 'q' {
            Ok(Key::Cancel)
        } else if c == 'c' && ctrl {
            Err(Error::Interrupted)
        } else {
            Ok(Key::Ignore)
        },
    }
}

} // verus!
