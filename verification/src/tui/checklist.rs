//! A checklist of update candidates: a cursor and a selection flag per row,
//! all selected at first.
use vstd::prelude::*;

use crate::prompt::indices_of;
use crate::render::{dec_string, push_decimal};
use crate::text::push_str;
use crate::update::Candidate;

verus! {

/// The checklist's state.
#[derive(Debug, Clone)]
pub struct SelectionState {
    pub cursor: usize,
    pub selected: Vec<bool>,
}

impl SelectionState {
    /// `count` rows, all selected, the cursor on the first.
    pub fn new(count: usize) -> (r: Self)
        ensures
            r.cursor == 0,
            r.selected@ == Seq::new(count as nat, |i: int| true),
    {
        let mut selected: Vec<bool> = Vec::new();
        let mut i: usize = 0;
        while i < count
            invariant
                0 <= i <= count,
                selected@ == Seq::new(i as nat, |k: int| true),
            decreases count - i,
        {
            selected.push(true);
            proof {
                assert(selected@ =~= Seq::new((i + 1) as nat, |k: int| true));
            }
            i += 1;
        }
        SelectionState { cursor: 0, selected }
    }

    /// The indices of the selected rows, in order.
    pub fn selected_indexes(&self) -> (r: Vec<usize>)
        ensures
            r@ == indices_of(self.selected@),
    {
        let mut out: Vec<usize> = Vec::new();
        let mut i: usize = 0;
        while i < self.selected.len()
            invariant
                0 <= i <= self.selected.len(),
                out@ == indices_of(self.selected@.take(i as int)),
            decreases self.selected.len() - i,
        {
            proof {
                assert(self.selected@.take(i as int + 1).drop_last() == self.selected@.take(i as int));
            }
            if self.selected[i] {
                out.push(i);
            }
            i += 1;
        }
        proof {
            assert(self.selected@.take(self.selected@.len() as int) == self.selected@);
        }
        out
    }

    /// Move the cursor up one row, stopping at the first.
    pub fn move_up(&mut self)
        ensures
            final(self).selected == old(self).selected,
            final(self).cursor == if old(self).cursor > 0 {
                (old(self).cursor - 1) as usize
            } else {
                0
            },
    {
        if self.cursor > 0 {
            self.cursor -= 1;
        }
    }

    /// Move the cursor down one row, stopping at the last.
    pub fn move_down(&mut self)
        ensures
            final(self).selected == old(self).selected,
            final(self).cursor == if old(self).cursor + 1 < old(self).selected@.len() {
                (old(self).cursor + 1) as usize
            } else {
                old(self).cursor
            },
    {
        if self.cursor < self.selected.len() && self.cursor + 1 < self.selected.len() {
            self.cursor += 1;
        }
    }

    /// Flip the selection of the row under the cursor.
    pub fn toggle_current(&mut self)
        ensures
            final(self).cursor == old(self).cursor,
            old(self).cursor < old(self).selected@.len() ==> final(self).selected@ == old(
                self,
            ).selected@.update(old(self).cursor as int, !old(self).selected@[old(self).cursor as int]),
            old(self).cursor >= old(self).selected@.len() ==> final(self).selected == old(
                self,
            ).selected,
    {
        if self.cursor < self.selected.len() {
            let v = !self.selected[self.cursor];
            self.selected.set(self.cursor, v);
        }
    }

    fn fill(&mut self, value: bool)
        ensures
            final(self).cursor == old(self).cursor,
            final(self).selected@ == Seq::new(old(self).selected@.len(), |i: int| value),
    {
        let mut i: usize = 0;
        while i < self.selected.len()
            invariant
                0 <= i <= self.selected.len(),
                self.cursor == old(self).cursor,
                self.selected@.len() == old(self).selected@.len(),
                forall|k: int| 0 <= k < i ==> self.selected@[k] == value,
            decreases self.selected.len() - i,
        {
            self.selected.set(i, value);
            i += 1;
        }
        proof {
            assert(self.selected@ =~= Seq::new(old(self).selected@.len(), |i: int| value));
        }
    }

    /// Select every row.
    pub fn select_all(&mut self)
        ensures
            final(self).cursor == old(self).cursor,
            final(self).selected@ == Seq::new(old(self).selected@.len(), |i: int| true),
    {
        self.fill(true);
    }

    /// Unselect every row.
    pub fn select_none(&mut self)
        ensures
            final(self).cursor == old(self).cursor,
            final(self).selected@ == Seq::new(old(self).selected@.len(), |i: int| false),
    {
        self.fill(false);
    }
}

/// A key pressed in the checklist.
#[derive(Debug, Clone, Copy, PartialEq, Eq, Structural)]
pub enum ChecklistKey {
    /// `q` or Escape: leave without updating anything.
    Cancel,
    /// Enter: update the selected rows.
    Confirm,
    /// Up arrow or `k`.
    Up,
    /// Down arrow or `j`.
    Down,
    /// Space: flip the row under the cursor.
    Toggle,
    /// `a`: select every row.
    All,
    /// `n`: select no row.
    Nothing,
    /// Any other key.
    Other,
}

/// The checklist key that a character key means.
pub fn key_for_char(c: char) -> (r: ChecklistKey)
    ensures
        r == (if c == 'q' {
            ChecklistKey::Cancel
        } else if c == 'k' {
            ChecklistKey::Up
        } else if c == 'j' {
            ChecklistKey::Down
        } else if c == ' ' {
            ChecklistKey::Toggle
        } else if c == 'a' {
            ChecklistKey::All
        } else if c == 'n' {
            ChecklistKey::Nothing
        } else {
            ChecklistKey::Other
        }),
{
    if c == 'q' {
        ChecklistKey::Cancel
    } else if c == 'k' {
        ChecklistKey::Up
    } else if c == 'j' {
        ChecklistKey::Down
    } else if c == ' ' {
        ChecklistKey::Toggle
    } else if c == 'a' {
        ChecklistKey::All
    } else if c == 'n' {
        ChecklistKey::Nothing
    } else {
        ChecklistKey::Other
    }
}

impl SelectionState {
    /// Handles one key: the rows to update once the checklist is done
    /// (none when it was canceled), or `None` while it goes on.
    pub fn on_key(&mut self, key: ChecklistKey) -> (r: Option<Vec<usize>>)
        ensures
            key == ChecklistKey::Cancel ==> (r matches Some(v) && v@.len() == 0) && *final(self) == *old(self),
            key == ChecklistKey::Confirm ==> (r matches Some(v) && v@ == indices_of(old(self).selected@))
                && *final(self) == *old(self),
            key == ChecklistKey::Other ==> r is None && *final(self) == *old(self),
            key == ChecklistKey::Up ==> r is None && final(self).selected == old(self).selected
                && final(self).cursor == if old(self).cursor > 0 {
                (old(self).cursor - 1) as usize
            } else {
                0
            },
            key == ChecklistKey::Down ==> r is None && final(self).selected == old(self).selected
                && final(self).cursor == if old(self).cursor + 1 < old(self).selected@.len() {
                (old(self).cursor + 1) as usize
            } else {
                old(self).cursor
            },
            key == ChecklistKey::Toggle ==> r is None && final(self).cursor == old(self).cursor && (if old(
                self,
            ).cursor < old(self).selected@.len() {
                final(self).selected@ == old(self).selected@.update(
                    old(self).cursor as int,
                    !old(self).selected@[old(self).cursor as int],
                )
            } else {
                final(self).selected == old(self).selected
            }),
            key == ChecklistKey::All ==> r is None && final(self).cursor == old(self).cursor
                && final(self).selected@ == Seq::new(old(self).selected@.len(), |i: int| true),
            key == ChecklistKey::Nothing ==> r is None && final(self).cursor == old(self).cursor
                && final(self).selected@ == Seq::new(old(self).selected@.len(), |i: int| false),
    {
        match key {
            ChecklistKey::Cancel => Some(Vec::new()),
            ChecklistKey::Confirm => Some(self.selected_indexes()),
            ChecklistKey::Up => {
                self.move_up();
                None
            },
            ChecklistKey::Down => {
                self.move_down();
                None
            },
            ChecklistKey::Toggle => {
                self.toggle_current();
                None
            },
            ChecklistKey::All => {
                self.select_all();
                None
            },
            ChecklistKey::Nothing => {
                self.select_none();
                None
            },
            ChecklistKey::Other => None,
        }
    }
}

/// The marker text of a row: the cursor, then the checkbox.
pub open spec fn marker_text(is_cursor: bool, selected: bool) -> Seq<char> {
    (if is_cursor { ">"@ } else { " "@ }) + (if selected { "[x]"@ } else { "[ ]"@ }) + " "@
}

/// The text of a candidate's row: where it is, the change, and its first
/// note in brackets.
pub open spec fn candidate_text(c: Candidate) -> Seq<char> {
    c.action.file@ + ":"@ + dec_string(c.action.line as nat) + " "@ + c.action.repo@ + "@"@
        + c.action.ref_name@ + " -> "@ + c.target_ref@ + " "@ + c.version@ + (if c.notes@.len() > 0 {
        " ("@ + c.notes@[0]@ + ")"@
    } else {
        Seq::empty()
    })
}

/// The two parts of a candidate's row: its marker, and its text.
pub fn row_parts(c: &Candidate, is_cursor: bool, selected: bool) -> (r: (String, String))
    ensures
        r.0@ == marker_text(is_cursor, selected),
        r.1@ == candidate_text(*c),
{
    let mut marker = String::new();
    push_str(&mut marker, if is_cursor { ">" } else { " " });
    push_str(&mut marker, if selected { "[x]" } else { "[ ]" });
    push_str(&mut marker, " ");
    let mut text = String::new();
    push_str(&mut text, c.action.file.as_str());
    push_str(&mut text, ":");
    push_decimal(&mut text, c.action.line as u64);
    push_str(&mut text, " ");
    push_str(&mut text, c.action.repo.as_str());
    push_str(&mut text, "@");
    push_str(&mut text, c.action.ref_name.as_str());
    push_str(&mut text, " -> ");
    push_str(&mut text, c.target_ref.as_str());
    push_str(&mut text, " ");
    push_str(&mut text, c.version.as_str());
    if c.notes.len() > 0 {
        push_str(&mut text, " (");
        push_str(&mut text, c.notes[0]);
        push_str(&mut text, ")");
    }
    proof {
        assert(marker@ =~= marker_text(is_cursor, selected));
        assert(text@ =~= candidate_text(*c));
    }
    (marker, text)
}

} // verus!
