//! The state of the picker over resolved updates, in the order they were
//! resolved: rows, selection, folding and what each key does to them.
use vstd::prelude::*;

use crate::model::ResolvedUpdate;
use crate::prompt::{
    fill_all, flip_marked, folded, indices_of, invert_all, is_folded, all_on, every_on, rows_for,
    row_view, toggle_folded, toggle_marked, RowView,
};
use crate::prompt::rows::{Piece, Tone, min7, pieces_view, push_piece, short_bytes};
use crate::text::{blen, char_boundary, chars_at_byte, chars_in_bytes, chars_of, str_eq, string_of_range};

pub use crate::prompt::{Error, Press, VisibleRow};

verus! {

/// A key press, as this picker reads it.
#[derive(Clone, Copy, Debug, PartialEq, Eq, Structural)]
pub enum Key {
    Up,
    Down,
    Toggle,
    ToggleAll,
    ToggleFile,
    ToggleCollapse,
    Invert,
    SelectNone,
    Accept,
    Cancel,
    Ignore,
}

/// The files of the updates, in order.
pub open spec fn update_files(updates: Seq<ResolvedUpdate>) -> Seq<Seq<char>> {
    updates.map_values(|u: ResolvedUpdate| u.file@)
}

/// The indices `0..n` in order.
pub open spec fn in_order(n: nat) -> Seq<usize> {
    Seq::new(n, |i: int| i as usize)
}

/// The rows of the picker: the updates in order, a header before each run
/// of updates of one file, and each update unless its file is folded.
pub fn build_visible_rows(updates: &[ResolvedUpdate], collapsed: &[String]) -> (r: Vec<VisibleRow>)
    ensures
        r@.map_values(|v: VisibleRow| row_view(v)) == rows_for(
            in_order(updates@.len()),
            update_files(updates@),
            collapsed@,
        ),
{
    let ghost files = update_files(updates@);
    let ghost order = in_order(updates@.len());
    let mut rows: Vec<VisibleRow> = Vec::new();
    let mut k: usize = 0;
    while k < updates.len()
        invariant
            0 <= k <= updates.len(),
            files == update_files(updates@),
            order == in_order(updates@.len()),
            rows@.map_values(|v: VisibleRow| row_view(v)) == rows_for(order.take(k as int), files, collapsed@),
        decreases updates.len() - k,
    {
        proof {
            assert(order.take(k as int + 1).drop_last() =~= order.take(k as int));
            assert(order.take(k as int + 1).last() == k);
            assert(files[k as int] == updates@[k as int].file@);
            if k > 0 {
                assert(order.take(k as int + 1)[k - 1] == (k - 1) as usize);
                assert(files[k - 1] == updates@[k - 1].file@);
            }
        }
        let file = updates[k].file.as_str();
        let new_file = k == 0 || !str_eq(updates[k - 1].file.as_str(), file);
        if new_file {
            rows.push(VisibleRow::FileHeader { file: file.to_string() });
        }
        if !is_folded(collapsed, file) {
            rows.push(VisibleRow::Update { original_index: k });
        }
        proof {
            assert(rows@.map_values(|v: VisibleRow| row_view(v)) =~= rows_for(
                order.take(k as int + 1),
                files,
                collapsed@,
            ));
        }
        k += 1;
    }
    proof {
        assert(order.take(updates@.len() as int) == order);
    }
    rows
}

/// The file of the row at `cursor`; past the end, the file of the first update.
pub open spec fn spec_file_at_cursor(visible: Seq<VisibleRow>, cursor: int, updates: Seq<ResolvedUpdate>) -> Seq<char> {
    if cursor >= visible.len() {
        updates[0].file@
    } else {
        match visible[cursor] {
            VisibleRow::FileHeader { file } => file@,
            VisibleRow::Update { original_index } => updates[original_index as int].file@,
        }
    }
}

/// The rows point at updates that exist.
pub open spec fn rows_point_into(visible: Seq<VisibleRow>, n: int) -> bool {
    forall|k: int| 0 <= k < visible.len() ==> (#[trigger] visible[k] matches VisibleRow::Update {
        original_index,
    } ==> original_index < n)
}

/// The file of the row under the cursor.
pub fn file_at_cursor(visible: &[VisibleRow], cursor: usize, updates: &[ResolvedUpdate]) -> (r: String)
    requires
        updates@.len() > 0,
        rows_point_into(visible@, updates@.len() as int),
    ensures
        r@ == spec_file_at_cursor(visible@, cursor as int, updates@),
{
    if cursor >= visible.len() {
        return updates[0].file.clone();
    }
    match &visible[cursor] {
        VisibleRow::FileHeader { file } => file.clone(),
        VisibleRow::Update { original_index } => updates[*original_index].file.clone(),
    }
}

/// Which updates belong to `file`.
pub open spec fn update_mask(updates: Seq<ResolvedUpdate>, file: Seq<char>) -> Seq<bool> {
    Seq::new(updates.len(), |i: int| updates[i].file@ == file)
}

/// Turns the updates of `file` off when all of them are selected, else on.
pub fn toggle_file(updates: &[ResolvedUpdate], selected: &mut Vec<bool>, file: &str)
    requires
        old(selected)@.len() == updates@.len(),
    ensures
        final(selected)@ == flip_marked(old(selected)@, update_mask(updates@, file@)),
{
    let mut mask: Vec<bool> = Vec::new();
    let mut i: usize = 0;
    while i < updates.len()
        invariant
            0 <= i <= updates.len(),
            mask@ == update_mask(updates@.take(i as int), file@),
        decreases updates.len() - i,
    {
        mask.push(str_eq(updates[i].file.as_str(), file));
        proof {
            assert(mask@ =~= update_mask(updates@.take(i as int + 1), file@));
        }
        i += 1;
    }
    proof {
        assert(updates@.take(updates@.len() as int) == updates@);
    }
    toggle_marked(selected, &mask);
}

/// Selects everything unless everything is selected, then nothing.
pub fn toggle_all(selected: &mut Vec<bool>)
    ensures
        final(selected)@ == Seq::new(old(selected)@.len(), |i: int| !all_on(old(selected)@)),
{
    let all = every_on(selected);
    fill_all(selected, !all);
}

/// Flips every selection.
pub fn invert_selected(selected: &mut Vec<bool>)
    ensures
        final(selected)@ == Seq::new(old(selected)@.len(), |i: int| !old(selected)@[i]),
{
    invert_all(selected);
}

/// The picker's state.
#[derive(Debug, Clone)]
pub struct PromptState {
    pub selected: Vec<bool>,
    /// The files whose updates are folded away.
    pub collapsed: Vec<String>,
    pub cursor: usize,
}

/// The cursor moved back onto `n` rows: past the end, to the last row.
pub open spec fn clamped(c: int, n: int) -> int {
    if c >= n {
        if n > 0 {
            n - 1
        } else {
            0
        }
    } else {
        c
    }
}

impl PromptState {
    /// Nothing selected, nothing folded, on the first row.
    pub fn new(count: usize) -> (r: Self)
        ensures
            r.selected@ == Seq::new(count as nat, |i: int| false),
            r.collapsed@.len() == 0,
            r.cursor == 0,
    {
        let s = crate::prompt::State::new(count);
        PromptState { selected: s.selected, collapsed: Vec::new(), cursor: 0 }
    }

    /// Keeps the cursor on one of `rows` rows.
    pub fn clamp_cursor(&mut self, rows: usize)
        ensures
            final(self).cursor == clamped(old(self).cursor as int, rows as int),
            final(self).selected == old(self).selected,
            final(self).collapsed == old(self).collapsed,
    {
        if self.cursor >= rows {
            self.cursor = if rows > 0 {
                rows - 1
            } else {
                0
            };
        }
    }

    /// Applies one key to the picker showing `visible` for `updates`. `None`
    /// means the picker goes on; otherwise it ends with the selected indices
    /// or canceled.
    pub fn handle_key(&mut self, key: Key, visible: &[VisibleRow], updates: &[ResolvedUpdate]) -> (r: Option<
        Result<Vec<usize>, Error>,
    >)
        requires
            old(self).cursor < visible@.len(),
            old(self).selected@.len() == updates@.len(),
            updates@.len() > 0,
            rows_point_into(visible@, updates@.len() as int),
        ensures
            final(self).cursor == match key {
                Key::Up => if old(self).cursor > 0 {
                    old(self).cursor - 1
                } else {
                    visible@.len() - 1
                },
                Key::Down => if old(self).cursor + 1 < visible@.len() {
                    old(self).cursor + 1
                } else {
                    0
                },
                Key::ToggleCollapse => clamped(
                    old(self).cursor as int,
                    rows_for(in_order(updates@.len()), update_files(updates@), final(self).collapsed@).len() as int,
                ),
                _ => old(self).cursor as int,
            },
            final(self).selected@ == match key {
                Key::Toggle => match visible@[old(self).cursor as int] {
                    VisibleRow::Update { original_index } => old(self).selected@.update(
                        original_index as int,
                        !old(self).selected@[original_index as int],
                    ),
                    _ => old(self).selected@,
                },
                Key::ToggleAll => Seq::new(old(self).selected@.len(), |i: int| !all_on(old(self).selected@)),
                Key::ToggleFile => flip_marked(
                    old(self).selected@,
                    update_mask(updates@, spec_file_at_cursor(visible@, old(self).cursor as int, updates@)),
                ),
                Key::Invert => Seq::new(old(self).selected@.len(), |i: int| !old(self).selected@[i]),
                Key::SelectNone => Seq::new(old(self).selected@.len(), |i: int| false),
                _ => old(self).selected@,
            },
            key == Key::ToggleCollapse ==> forall|f: Seq<char>| #[trigger] folded(final(self).collapsed@, f) == if f == spec_file_at_cursor(visible@, old(self).cursor as int, updates@) {
                !folded(old(self).collapsed@, f)
            } else {
                folded(old(self).collapsed@, f)
            },
            key != Key::ToggleCollapse ==> final(self).collapsed@ == old(self).collapsed@,
            match key {
                Key::Accept => r matches Some(Ok(v)) && v@ == indices_of(old(self).selected@),
                Key::Cancel => r == Some(Err::<Vec<usize>, Error>(Error::Canceled)),
                _ => r is None,
            },
    {
        let n = visible.len();
        match key {
            Key::Up => {
                self.cursor = if self.cursor > 0 {
                    self.cursor - 1
                } else {
                    n - 1
                };
            },
            Key::Down => {
                self.cursor = if self.cursor + 1 < n {
                    self.cursor + 1
                } else {
                    0
                };
            },
            Key::Toggle => {
                match &visible[self.cursor] {
                    VisibleRow::Update { original_index } => {
                        let i = *original_index;
                        let v = self.selected[i];
                        self.selected.set(i, !v);
                    },
                    VisibleRow::FileHeader { .. } => {},
                }
            },
            Key::ToggleAll => toggle_all(&mut self.selected),
            Key::ToggleFile => {
                let file = file_at_cursor(visible, self.cursor, updates);
                toggle_file(updates, &mut self.selected, file.as_str());
            },
            Key::ToggleCollapse => {
                let file = file_at_cursor(visible, self.cursor, updates);
                toggle_folded(&mut self.collapsed, file.as_str());
                let rows = build_visible_rows(updates, &self.collapsed);
                proof {
                    assert(rows@.map_values(|v: VisibleRow| row_view(v)).len() == rows@.len());
                }
                self.clamp_cursor(rows.len());
            },
            Key::Invert => invert_selected(&mut self.selected),
            Key::SelectNone => fill_all(&mut self.selected, false),
            Key::Accept => {
                let s = crate::prompt::State {
                    selected: self.selected.clone(),
                    collapsed: Vec::new(),
                    cursor: 0,
                    h_scroll: 0,
                };
                proof {
                    assert(s.selected@ == self.selected@);
                }
                return Some(Ok(s.selected_indices()));
            },
            Key::Cancel => {
                return Some(Err(Error::Canceled));
            },
            Key::Ignore => {},
        }
        None
    }
}

/// What a key press means to the update list: Ctrl-C interrupts, and each
/// known key has its command.
pub open spec fn spec_key_of(p: Press, ctrl: bool) -> Result<Key, Error> {
    match p {
        Press::Up => Ok(Key::Up),
        Press::Down => Ok(Key::Down),
        Press::Enter => Ok(Key::Accept),
        Press::Tab => Ok(Key::ToggleCollapse),
        Press::Esc => Ok(Key::Cancel),
        Press::Char(c) => if c == 'k' {
            Ok(Key::Up)
        } else if c == 'j' {
            Ok(Key::Down)
        } else if c == ' ' || c == 'x' {
            Ok(Key::Toggle)
        } else if c == 'a' {
            Ok(Key::ToggleAll)
        } else if c == 'f' {
            Ok(Key::ToggleFile)
        } else if c == 'i' {
            Ok(Key::Invert)
        } else if c == 'n' {
            Ok(Key::SelectNone)
        } else if c == 'q' {
            Ok(Key::Cancel)
        } else if c == 'c' && ctrl {
            Err(Error::Interrupted)
        } else {
            Ok(Key::Ignore)
        },
        _ => Ok(Key::Ignore),
    }
}

/// The update list's reading of a key press (`ctrl` when Control was held).
pub fn key_of(p: Press, ctrl: bool) -> (r: Result<Key, Error>)
    ensures
        r == spec_key_of(p, ctrl),
{
    match p {
        Press::Up => Ok(Key::Up),
        Press::Down => Ok(Key::Down),
        Press::Enter => Ok(Key::Accept),
        Press::Tab => Ok(Key::ToggleCollapse),
        Press::Esc => Ok(Key::Cancel),
        Press::Char(c) => if c == 'k' {
            Ok(Key::Up)
        } else if c == 'j' {
            Ok(Key::Down)
        } else if c == ' ' || c == 'x' {
            Ok(Key::Toggle)
        } else if c == 'a' {
            Ok(Key::ToggleAll)
        } else if c == 'f' {
            Ok(Key::ToggleFile)
        } else if c == 'i' {
            Ok(Key::Invert)
        } else if c == 'n' {
            Ok(Key::SelectNone)
        } else if c == 'q' {
            Ok(Key::Cancel)
        } else if c == 'c' && ctrl {
            Err(Error::Interrupted)
        } else {
            Ok(Key::Ignore)
        },
        _ => Ok(Key::Ignore),
    }
}

/// The first seven bytes of a commit (all of it when shorter).
pub open spec fn short_commit(sha: Seq<char>) -> Seq<char> {
    sha.take(chars_at_byte(sha, min7(blen(sha)) as int))
}

/// What an update's row shows as the expected commit: the short form of
/// the resolved commit, or the current ref when none was resolved.
pub open spec fn expected_text(u: ResolvedUpdate) -> Seq<char> {
    if u.current_ref@.len() == 0 {
        u.current@
    } else {
        short_commit(u.current_ref@)
    }
}

/// The resolved commit can be cut after its first seven bytes without
/// cutting a character.
pub open spec fn commit_cut_ok(u: ResolvedUpdate) -> bool {
    u.current_ref@.len() > 0 ==> blen(u.current_ref@) <= usize::MAX && char_boundary(
        u.current_ref@,
        min7(blen(u.current_ref@)) as int,
    )
}

/// The tone of an update's target: warning for a mismatched commit or a
/// branch, alert for a major update, good otherwise.
pub open spec fn item_tone(u: ResolvedUpdate, is_branch: bool) -> Tone {
    if u.sha_mismatch || is_branch {
        Tone::Warn
    } else if u.next_is_major {
        Tone::Alert
    } else {
        Tone::Good
    }
}

/// The lines of an update's item: the file's line when the file changes
/// here, the marker and action, where it comes from (with its version
/// comment), where it goes, and its job with notes on a mismatched commit
/// and an unpinned branch.
pub open spec fn item_view(u: ResolvedUpdate, selected: bool, file_changed: bool, is_branch: bool) -> Seq<
    Seq<(Seq<char>, Tone)>,
> {
    (if file_changed {
        seq![seq![("\u{25b8} "@, Tone::Accent), (u.file@, Tone::AccentBold)]]
    } else {
        Seq::empty()
    }) + seq![
        seq![
            (if selected { "\u{25cf}"@ } else { "\u{25cb}"@ }, if selected { Tone::Good } else { Tone::Muted }),
            (" "@, Tone::Plain),
            (u.action@, Tone::Bold),
        ],
        seq![("    "@, Tone::Plain), ("from "@, Tone::Muted), (u.current@, Tone::Warn)] + if u.version_comment@.len() > 0 {
            seq![(" ("@, Tone::Muted), (u.version_comment@, Tone::Info), (")"@, Tone::Muted)]
        } else {
            seq![(""@, Tone::Plain), (""@, Tone::Plain), (""@, Tone::Plain)]
        },
        seq![("    "@, Tone::Plain), ("to "@, Tone::Muted), (u.spec_display_target(), item_tone(u, is_branch))],
        seq![("    "@, Tone::Plain), ("job "@, Tone::Muted), (u.job@, Tone::Plain)] + (if u.sha_mismatch {
            seq![("  expected "@, Tone::Muted), (expected_text(u), Tone::Warn)]
        } else {
            Seq::empty()
        }) + (if is_branch {
            seq![("  (unpinned branch ref)"@, Tone::Warn)]
        } else {
            Seq::empty()
        }),
    ]
}

pub open spec fn lines_view(ls: Seq<Vec<Piece>>) -> Seq<Seq<(Seq<char>, Tone)>> {
    ls.map_values(|l: Vec<Piece>| pieces_view(l@))
}

fn expected_string(u: &ResolvedUpdate) -> (r: String)
    requires
        commit_cut_ok(*u),
    ensures
        r@ == expected_text(*u),
{
    if !u.has_current_ref() {
        return u.current.clone();
    }
    let cs = chars_of(u.current_ref.as_str());
    let b = short_bytes(u.current_ref.as_str()) as usize;
    let n = match chars_in_bytes(&cs, b) {
        Some(n) => n,
        None => {
            proof {
                assert(false);
            }
            0
        },
    };
    let s = string_of_range(&cs, 0, n);
    proof {
        assert(cs@.subrange(0, n as int) =~= short_commit(u.current_ref@));
    }
    s
}

fn push_line(lines: &mut Vec<Vec<Piece>>, line: Vec<Piece>)
    ensures
        lines_view(final(lines)@) == lines_view(old(lines)@).push(pieces_view(line@)),
{
    lines.push(line);
    proof {
        assert(lines_view(lines@) =~= lines_view(old(lines)@).push(pieces_view(line@)));
    }
}

/// The lines of an update's item, given whether it is selected, whether
/// its file differs from the row before, and whether its current ref is a
/// branch (which the update itself does not record).
pub fn update_item_lines(u: &ResolvedUpdate, selected: bool, file_changed: bool, is_branch: bool) -> (r: Vec<Vec<Piece>>)
    requires
        commit_cut_ok(*u),
    ensures
        lines_view(r@) == item_view(*u, selected, file_changed, is_branch),
{
    let mut lines: Vec<Vec<Piece>> = Vec::new();
    if file_changed {
        let mut l: Vec<Piece> = Vec::new();
        push_piece(&mut l, "\u{25b8} ".to_string(), Tone::Accent);
        push_piece(&mut l, u.file.clone(), Tone::AccentBold);
        push_line(&mut lines, l);
    }
    let ghost head = lines_view(lines@);
    let mut l1: Vec<Piece> = Vec::new();
    push_piece(&mut l1, (if selected { "\u{25cf}" } else { "\u{25cb}" }).to_string(), if selected { Tone::Good } else { Tone::Muted });
    push_piece(&mut l1, " ".to_string(), Tone::Plain);
    push_piece(&mut l1, u.action.clone(), Tone::Bold);
    push_line(&mut lines, l1);
    let mut l2: Vec<Piece> = Vec::new();
    push_piece(&mut l2, "    ".to_string(), Tone::Plain);
    push_piece(&mut l2, "from ".to_string(), Tone::Muted);
    push_piece(&mut l2, u.current.clone(), Tone::Warn);
    if u.has_version_comment() {
        push_piece(&mut l2, " (".to_string(), Tone::Muted);
        push_piece(&mut l2, u.version_comment.clone(), Tone::Info);
        push_piece(&mut l2, ")".to_string(), Tone::Muted);
    } else {
        push_piece(&mut l2, "".to_string(), Tone::Plain);
        push_piece(&mut l2, "".to_string(), Tone::Plain);
        push_piece(&mut l2, "".to_string(), Tone::Plain);
    }
    push_line(&mut lines, l2);
    let tone = if u.has_sha_mismatch() || is_branch {
        Tone::Warn
    } else if u.is_major_update() {
        Tone::Alert
    } else {
        Tone::Good
    };
    let mut l3: Vec<Piece> = Vec::new();
    push_piece(&mut l3, "    ".to_string(), Tone::Plain);
    push_piece(&mut l3, "to ".to_string(), Tone::Muted);
    push_piece(&mut l3, u.display_target().to_string(), tone);
    push_line(&mut lines, l3);
    let mut l4: Vec<Piece> = Vec::new();
    push_piece(&mut l4, "    ".to_string(), Tone::Plain);
    push_piece(&mut l4, "job ".to_string(), Tone::Muted);
    push_piece(&mut l4, u.job.clone(), Tone::Plain);
    if u.has_sha_mismatch() {
        push_piece(&mut l4, "  expected ".to_string(), Tone::Muted);
        push_piece(&mut l4, expected_string(u), Tone::Warn);
    }
    if is_branch {
        push_piece(&mut l4, "  (unpinned branch ref)".to_string(), Tone::Warn);
    }
    push_line(&mut lines, l4);
    proof {
        assert(lines_view(lines@) =~~= item_view(*u, selected, file_changed, is_branch));
    }
    lines
}

/// The lines of a folded file's item: the file, then a note that it is
/// collapsed.
pub open spec fn folded_view(file: Seq<char>) -> Seq<Seq<(Seq<char>, Tone)>> {
    seq![
        seq![("\u{25b8} "@, Tone::Accent), (file, Tone::AccentBold)],
        seq![("  \u{22ef} "@, Tone::Muted), ("collapsed"@, Tone::Muted)],
    ]
}

pub fn folded_file_lines(file: &str) -> (r: Vec<Vec<Piece>>)
    ensures
        lines_view(r@) == folded_view(file@),
{
    let mut lines: Vec<Vec<Piece>> = Vec::new();
    let mut l: Vec<Piece> = Vec::new();
    push_piece(&mut l, "\u{25b8} ".to_string(), Tone::Accent);
    push_piece(&mut l, file.to_string(), Tone::AccentBold);
    push_line(&mut lines, l);
    let mut l2: Vec<Piece> = Vec::new();
    push_piece(&mut l2, "  \u{22ef} ".to_string(), Tone::Muted);
    push_piece(&mut l2, "collapsed".to_string(), Tone::Muted);
    push_line(&mut lines, l2);
    proof {
        assert(lines_view(lines@) =~~= folded_view(file@));
    }
    lines
}

/// The items of the rows `rows`, the file of the row before them being
/// `last`: a folded file's lines for a header, an update's lines for an
/// update, with the file shown when it differs from the row before.
pub open spec fn items_from(
    updates: Seq<ResolvedUpdate>,
    rows: Seq<VisibleRow>,
    selected: Seq<bool>,
    branch: Seq<bool>,
    last: Option<Seq<char>>,
) -> Seq<Seq<Seq<(Seq<char>, Tone)>>>
    decreases rows.len(),
{
    if rows.len() == 0 {
        Seq::empty()
    } else {
        match rows[0] {
            VisibleRow::FileHeader { file } => seq![folded_view(file@)] + items_from(
                updates,
                rows.drop_first(),
                selected,
                branch,
                Some(file@),
            ),
            VisibleRow::Update { original_index } => {
                let u = updates[original_index as int];
                seq![
                    item_view(
                        u,
                        selected[original_index as int],
                        last != Some(u.file@),
                        branch[original_index as int],
                    ),
                ] + items_from(updates, rows.drop_first(), selected, branch, Some(u.file@))
            },
        }
    }
}

/// Each update row names an update that exists, with a selection and a
/// branch flag, whose commit can be shortened.
pub open spec fn items_ok(updates: Seq<ResolvedUpdate>, rows: Seq<VisibleRow>, selected: Seq<bool>, branch: Seq<bool>) -> bool {
    forall|k: int|
        0 <= k < rows.len() ==> (#[trigger] rows[k] matches VisibleRow::Update { original_index } ==> (
        original_index < updates.len() && original_index < selected.len() && original_index < branch.len()
            && commit_cut_ok(updates[original_index as int])))
}

/// The items of the update list, one per visible row. `branch[i]` says
/// whether update `i`'s current ref is a branch.
pub fn list_items(updates: &[ResolvedUpdate], rows: &[VisibleRow], selected: &[bool], branch: &[bool]) -> (r: Vec<
    Vec<Vec<Piece>>,
>)
    requires
        items_ok(updates@, rows@, selected@, branch@),
    ensures
        r@.map_values(|it: Vec<Vec<Piece>>| lines_view(it@)) =~~= items_from(
            updates@,
            rows@,
            selected@,
            branch@,
            None,
        ),
{
    let mut out: Vec<Vec<Vec<Piece>>> = Vec::new();
    let mut last: Option<String> = None;
    let mut k: usize = 0;
    proof {
        assert(rows@.skip(0) =~= rows@);
        let e = out@.map_values(|it: Vec<Vec<Piece>>| lines_view(it@));
        assert(e =~= Seq::<Seq<Seq<(Seq<char>, Tone)>>>::empty());
        assert(e + items_from(updates@, rows@, selected@, branch@, None) =~= items_from(
            updates@,
            rows@,
            selected@,
            branch@,
            None,
        ));
    }
    while k < rows.len()
        invariant
            0 <= k <= rows.len(),
            items_ok(updates@, rows@, selected@, branch@),
            out@.map_values(|it: Vec<Vec<Piece>>| lines_view(it@)) + items_from(
                updates@,
                rows@.skip(k as int),
                selected@,
                branch@,
                crate::engine::opt_view(last),
            ) =~~= items_from(updates@, rows@, selected@, branch@, None),
        decreases rows.len() - k,
    {
        let ghost rest = rows@.skip(k as int);
        let ghost before = out@.map_values(|it: Vec<Vec<Piece>>| lines_view(it@));
        proof {
            assert(rest.drop_first() =~= rows@.skip(k as int + 1));
            assert(rest[0] == rows@[k as int]);
        }
        match &rows[k] {
            VisibleRow::FileHeader { file } => {
                out.push(folded_file_lines(file.as_str()));
                last = Some(file.clone());
            },
            VisibleRow::Update { original_index } => {
                let i = *original_index;
                let u = &updates[i];
                let changed = match &last {
                    Some(f) => !str_eq(f.as_str(), u.file.as_str()),
                    None => true,
                };
                out.push(update_item_lines(u, selected[i], changed, branch[i]));
                last = Some(u.file.clone());
            },
        }
        proof {
            assert(out@.map_values(|it: Vec<Vec<Piece>>| lines_view(it@)) =~~= before.push(
                out@.last().view().map_values(|l: Vec<Piece>| pieces_view(l@)),
            ));
        }
        k += 1;
    }
    proof {
        assert(rows@.skip(rows@.len() as int) =~= Seq::<VisibleRow>::empty());
    }
    out
}

} // verus!
