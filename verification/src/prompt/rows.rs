//! The picker's rows as text: aligned columns, a marker for what is
//! selected, notes on each update, and the horizontal scroll.
use vstd::prelude::*;

use crate::actions::reference::spec_action_name;
use crate::model::Action;
use super::{State, VisibleRow, folded};
use crate::render::{dec_string, push_decimal};
use crate::cmd::update::{pad, push_padded};
use crate::text::{
    blen, char_boundary, chars_at_byte, chars_in_bytes, chars_of, push_str, str_eq, string_of_range,
    utf8_len_wide,
};

verus! {

/// The `owner/name/path` of an action.
pub open spec fn name_text(a: Action) -> Seq<char> {
    spec_action_name(a.owner@, a.name@, a.path@)
}

/// The change an update makes: `current -> new version`.
pub open spec fn change_text(a: Action) -> Seq<char> {
    a.current_ref@ + " -> "@ + a.new_version@
}

/// Where an update is: `file:line`.
pub open spec fn loc_text(a: Action) -> Seq<char> {
    a.file@ + ":"@ + dec_string(a.line as nat)
}

/// The largest value of `f` over the actions; 0 when there are none.
pub open spec fn widest(actions: Seq<Action>, f: spec_fn(Action) -> nat) -> nat
    decreases actions.len(),
{
    if actions.len() == 0 {
        0
    } else {
        let w = widest(actions.drop_last(), f);
        let x = f(actions.last());
        if x > w {
            x
        } else {
            w
        }
    }
}

pub open spec fn name_width(a: Action) -> nat {
    name_text(a).len()
}

pub open spec fn change_width(a: Action) -> nat {
    change_text(a).len()
}

pub open spec fn loc_width(a: Action) -> nat {
    loc_text(a).len()
}

fn char_count(s: &str) -> (r: usize)
    ensures
        r == s@.len(),
{
    chars_of(s).len()
}

fn change_string(a: &Action) -> (r: String)
    ensures
        r@ == change_text(*a),
{
    let mut s = String::new();
    push_str(&mut s, a.current_ref.as_str());
    push_str(&mut s, " -> ");
    push_str(&mut s, a.new_version.as_str());
    proof {
        reveal_strlit(" -> ");
        assert(s@ =~= change_text(*a));
    }
    s
}

fn loc_string(a: &Action) -> (r: String)
    ensures
        r@ == loc_text(*a),
{
    let mut s = String::new();
    push_str(&mut s, a.file.as_str());
    push_str(&mut s, ":");
    push_decimal(&mut s, a.line as u64);
    proof {
        reveal_strlit(":");
        assert(s@ =~= loc_text(*a));
    }
    s
}

/// The widths of the name, change and location columns: the longest text
/// of each, in characters.
pub fn column_widths(actions: &[Action]) -> (r: (usize, usize, usize))
    ensures
        r.0 == widest(actions@, |a: Action| name_width(a)),
        r.1 == widest(actions@, |a: Action| change_width(a)),
        r.2 == widest(actions@, |a: Action| loc_width(a)),
{
    let mut aw: usize = 0;
    let mut cw: usize = 0;
    let mut lw: usize = 0;
    let mut i: usize = 0;
    while i < actions.len()
        invariant
            0 <= i <= actions.len(),
            aw == widest(actions@.take(i as int), |a: Action| name_width(a)),
            cw == widest(actions@.take(i as int), |a: Action| change_width(a)),
            lw == widest(actions@.take(i as int), |a: Action| loc_width(a)),
        decreases actions.len() - i,
    {
        proof {
            assert(actions@.take(i as int + 1).drop_last() =~= actions@.take(i as int));
            assert(actions@.take(i as int + 1).last() == actions@[i as int]);
        }
        let a = &actions[i];
        let n = char_count(a.action_name().as_str());
        let c = char_count(change_string(a).as_str());
        let l = char_count(loc_string(a).as_str());
        if n > aw {
            aw = n;
        }
        if c > cw {
            cw = c;
        }
        if l > lw {
            lw = l;
        }
        i += 1;
    }
    proof {
        assert(actions@.take(actions@.len() as int) =~= actions@);
    }
    (aw, cw, lw)
}

/// `n`, but at most 7.
pub open spec fn min7(n: nat) -> nat {
    if n < 7 {
        n
    } else {
        7
    }
}

/// The width of an update's row before scrolling, given the column widths.
pub open spec fn item_width(a: Action, aw: nat, cw: nat, lw: nat) -> nat {
    6 + aw + 2 + cw + 2 + lw + (if a.new_ref@ != a.new_version@ {
        3 + min7(blen(a.new_ref@)) + 1
    } else {
        0
    }) + (match a.version_comment {
        Some(vc) => 1 + vc@.len() + 1,
        None => 0,
    }) + (if a.sha_mismatch {
        5 + min7(blen(a.expected_sha@)) + 1
    } else {
        0
    }) + (if a.is_branch {
        7nat
    } else {
        0
    }) + (if a.is_major {
        6nat
    } else {
        0
    })
}

pub(crate) fn short_bytes(s: &str) -> (r: u128)
    ensures
        r == min7(blen(s@)),
{
    let b = utf8_len_wide(&chars_of(s));
    if b < 7 {
        b
    } else {
        7
    }
}

/// The width of the widest row: what the picker can scroll through.
pub fn content_width(actions: &[Action], aw: usize, cw: usize, lw: usize) -> (r: usize)
    requires
        forall|k: int|
            0 <= k < actions.len() ==> item_width(#[trigger] actions@[k], aw as nat, cw as nat, lw as nat)
                <= usize::MAX,
    ensures
        r == widest(actions@, |a: Action| item_width(a, aw as nat, cw as nat, lw as nat)),
{
    let ghost f = |a: Action| item_width(a, aw as nat, cw as nat, lw as nat);
    let mut best: usize = 0;
    let mut i: usize = 0;
    while i < actions.len()
        invariant
            0 <= i <= actions.len(),
            f == (|a: Action| item_width(a, aw as nat, cw as nat, lw as nat)),
            forall|k: int|
                0 <= k < actions.len() ==> item_width(#[trigger] actions@[k], aw as nat, cw as nat, lw as nat)
                    <= usize::MAX,
            best == widest(actions@.take(i as int), f),
        decreases actions.len() - i,
    {
        proof {
            assert(actions@.take(i as int + 1).drop_last() =~= actions@.take(i as int));
            assert(actions@.take(i as int + 1).last() == actions@[i as int]);
        }
        let a = &actions[i];
        let mut w: u128 = 6 + aw as u128 + 2 + cw as u128 + 2 + lw as u128;
        if !str_eq(a.new_ref.as_str(), a.new_version.as_str()) {
            w = w + 3 + short_bytes(a.new_ref.as_str()) + 1;
        }
        match &a.version_comment {
            Some(vc) => {
                w = w + 1 + char_count(vc.as_str()) as u128 + 1;
            },
            None => {},
        }
        if a.sha_mismatch {
            w = w + 5 + short_bytes(a.expected_sha.as_str()) + 1;
        }
        if a.is_branch {
            w = w + 7;
        }
        if a.is_major {
            w = w + 6;
        }
        assert(w == item_width(actions@[i as int], aw as nat, cw as nat, lw as nat));
        let w = w as usize;
        if w > best {
            best = w;
        }
        i += 1;
    }
    proof {
        assert(actions@.take(actions@.len() as int) =~= actions@);
    }
    best
}

/// `a - b`, or 0 when `b` is larger.
pub open spec fn sat_sub(a: int, b: int) -> nat {
    if a > b {
        (a - b) as nat
    } else {
        0
    }
}

/// How far the rows are scrolled sideways: the requested offset, but no
/// further than lets the widest row end at the right edge of an area
/// `width` columns wide (two of which are its border).
pub open spec fn spec_h_offset(h_scroll: nat, content: nat, width: nat) -> nat {
    let room = sat_sub(content as int, sat_sub(width as int, 2) as int);
    if h_scroll < room {
        h_scroll
    } else {
        room
    }
}

pub fn h_offset(h_scroll: usize, content: usize, width: u16) -> (r: usize)
    ensures
        r == spec_h_offset(h_scroll as nat, content as nat, width as nat),
{
    let viewport = width.saturating_sub(2) as usize;
    let room = content.saturating_sub(viewport);
    if h_scroll < room {
        h_scroll
    } else {
        room
    }
}

/// How a piece of a row is shown.
#[derive(Debug, Clone, Copy, PartialEq, Eq, Structural)]
pub enum Tone {
    /// As it is.
    Plain,
    /// Bold.
    Bold,
    /// Dimmed.
    Muted,
    /// Dimmed and bold.
    MutedBold,
    /// The accent colour.
    Accent,
    /// The accent colour, bold.
    AccentBold,
    /// Green: a safe change, or something selected.
    Good,
    /// Green and bold.
    GoodBold,
    /// Yellow: a branch or a commit that does not match.
    Warn,
    /// Red: a major update.
    Alert,
    /// Blue: a commit or a version.
    Info,
}

/// A run of text in one tone.
#[derive(Debug, Clone, PartialEq, Eq)]
pub struct Piece {
    pub text: String,
    pub tone: Tone,
}

pub open spec fn pieces_view(ps: Seq<Piece>) -> Seq<(Seq<char>, Tone)> {
    ps.map_values(|p: Piece| (p.text@, p.tone))
}

fn piece(text: String, tone: Tone) -> (r: Piece)
    ensures
        r.text@ == text@,
        r.tone == tone,
{
    Piece { text, tone }
}

pub(crate) fn push_piece(row: &mut Vec<Piece>, text: String, tone: Tone)
    ensures
        pieces_view(final(row)@) == pieces_view(old(row)@).push((text@, tone)),
{
    row.push(piece(text, tone));
    proof {
        assert(pieces_view(row@) =~= pieces_view(old(row)@).push((text@, tone)));
    }
}

/// The label of a file's header: `all` when every update is selected,
/// else `selected/total`.
pub open spec fn count_label(sel: nat, total: nat) -> Seq<char> {
    if sel == total {
        "all"@
    } else {
        dec_string(sel) + "/"@ + dec_string(total)
    }
}

/// A file's header row: the fold marker, the count of selected updates,
/// and the file.
pub open spec fn header_view(file: Seq<char>, sel: nat, total: nat, folded: bool) -> Seq<(Seq<char>, Tone)> {
    seq![
        ((if folded { "\u{25b8}"@ } else { "\u{25be}"@ }) + " "@, Tone::Accent),
        ("["@ + count_label(sel, total) + "] "@, if sel > 0 { Tone::GoodBold } else { Tone::MutedBold }),
        (file, Tone::AccentBold),
    ]
}

/// The header row of `file`, given how many of its updates are selected.
pub fn header_pieces(file: &str, sel: usize, total: usize, folded: bool) -> (r: Vec<Piece>)
    ensures
        pieces_view(r@) == header_view(file@, sel as nat, total as nat, folded),
{
    let mut row: Vec<Piece> = Vec::new();
    let mut marker = String::new();
    push_str(&mut marker, if folded { "\u{25b8}" } else { "\u{25be}" });
    push_str(&mut marker, " ");
    push_piece(&mut row, marker, Tone::Accent);
    let mut label = String::new();
    push_str(&mut label, "[");
    if sel == total {
        push_str(&mut label, "all");
    } else {
        push_decimal(&mut label, sel as u64);
        push_str(&mut label, "/");
        push_decimal(&mut label, total as u64);
    }
    push_str(&mut label, "] ");
    push_piece(&mut row, label, if sel > 0 { Tone::GoodBold } else { Tone::MutedBold });
    push_piece(&mut row, file.to_string(), Tone::AccentBold);
    proof {
        assert(pieces_view(row@)[1].0 =~= "["@ + count_label(sel as nat, total as nat) + "] "@);
        assert(pieces_view(row@) =~= header_view(file@, sel as nat, total as nat, folded));
    }
    row
}

/// The tone of an update's change: warning for a mismatched commit or a
/// branch, alert for a major update, good otherwise.
pub open spec fn target_tone(a: Action) -> Tone {
    if a.sha_mismatch || a.is_branch {
        Tone::Warn
    } else if a.is_major {
        Tone::Alert
    } else {
        Tone::Good
    }
}

/// The first bytes of the new ref shown after `@`: at most seven.
pub open spec fn short_ref(a: Action) -> Seq<char> {
    a.new_ref@.take(chars_at_byte(a.new_ref@, min7(blen(a.new_ref@)) as int))
}

/// The fixed part of an update's row: selection marker, then the aligned
/// name, change and location.
pub open spec fn base_view(a: Action, sel: bool, aw: nat, cw: nat, lw: nat) -> Seq<(Seq<char>, Tone)> {
    seq![
        ("  "@, Tone::Plain),
        (if sel { "[x]"@ } else { "[ ]"@ }, if sel { Tone::Good } else { Tone::Muted }),
        (" "@, Tone::Plain),
        (pad(name_text(a), aw as int), Tone::Bold),
        ("  "@, Tone::Plain),
        (pad(change_text(a), cw as int), target_tone(a)),
        ("  "@, Tone::Plain),
        (pad(loc_text(a), lw as int), Tone::Muted),
    ]
}

/// The notes after an update's columns: the new commit when the new ref is
/// not the version itself, then the version comment.
pub open spec fn ref_notes(a: Action) -> Seq<(Seq<char>, Tone)> {
    (if a.new_ref@ != a.new_version@ {
        seq![("  "@, Tone::Plain), ("@"@ + short_ref(a), Tone::Info), (" "@, Tone::Plain)]
    } else {
        Seq::empty()
    }) + (match a.version_comment {
        Some(vc) => seq![("#"@, Tone::Muted), (vc@, Tone::Info), (" "@, Tone::Plain)],
        None => Seq::empty(),
    })
}

/// The flags at the end of an update's row: a mismatched commit, a
/// branch, a major update.
pub open spec fn flag_notes(a: Action) -> Seq<(Seq<char>, Tone)> {
    (if a.sha_mismatch {
        seq![("sha!"@, Tone::Warn), (" "@, Tone::Plain)]
    } else {
        Seq::empty()
    }) + (if a.is_branch {
        seq![("branch"@, Tone::Warn), (" "@, Tone::Plain)]
    } else {
        Seq::empty()
    }) + (if a.is_major {
        seq![("major"@, Tone::Alert)]
    } else {
        Seq::empty()
    })
}

/// An update's row.
pub open spec fn update_view(a: Action, sel: bool, aw: nat, cw: nat, lw: nat) -> Seq<(Seq<char>, Tone)> {
    base_view(a, sel, aw, cw, lw) + ref_notes(a) + flag_notes(a)
}

/// The new ref can be cut after its first seven bytes (or fewer, when it is
/// shorter) without cutting a character.
pub open spec fn short_ref_ok(a: Action) -> bool {
    a.new_ref@ != a.new_version@ ==> blen(a.new_ref@) <= usize::MAX && char_boundary(
        a.new_ref@,
        min7(blen(a.new_ref@)) as int,
    )
}

fn padded(s: &str, width: usize) -> (r: String)
    ensures
        r@ == pad(s@, width as int),
{
    let mut out = String::new();
    push_padded(&mut out, s, width);
    proof {
        assert(out@ =~= pad(s@, width as int));
    }
    out
}

fn push_ref_notes(row: &mut Vec<Piece>, a: &Action)
    requires
        short_ref_ok(*a),
    ensures
        pieces_view(final(row)@) == pieces_view(old(row)@) + ref_notes(*a),
{
    if !str_eq(a.new_ref.as_str(), a.new_version.as_str()) {
        let cs = chars_of(a.new_ref.as_str());
        let b = short_bytes(a.new_ref.as_str()) as usize;
        let n = match chars_in_bytes(&cs, b) {
            Some(n) => n,
            None => {
                proof {
                    assert(false);
                }
                0
            },
        };
        let mut shown = String::new();
        push_str(&mut shown, "@");
        push_str(&mut shown, string_of_range(&cs, 0, n).as_str());
        proof {
            assert(cs@.subrange(0, n as int) =~= short_ref(*a));
        }
        push_piece(row, "  ".to_string(), Tone::Plain);
        push_piece(row, shown, Tone::Info);
        push_piece(row, " ".to_string(), Tone::Plain);
    }
    let ghost mid = pieces_view(row@);
    match &a.version_comment {
        Some(vc) => {
            push_piece(row, "#".to_string(), Tone::Muted);
            push_piece(row, vc.clone(), Tone::Info);
            push_piece(row, " ".to_string(), Tone::Plain);
        },
        None => {},
    }
    proof {
        assert(pieces_view(row@) =~= pieces_view(old(row)@) + ref_notes(*a));
    }
}

fn push_flag_notes(row: &mut Vec<Piece>, a: &Action)
    ensures
        pieces_view(final(row)@) == pieces_view(old(row)@) + flag_notes(*a),
{
    if a.sha_mismatch {
        push_piece(row, "sha!".to_string(), Tone::Warn);
        push_piece(row, " ".to_string(), Tone::Plain);
    }
    if a.is_branch {
        push_piece(row, "branch".to_string(), Tone::Warn);
        push_piece(row, " ".to_string(), Tone::Plain);
    }
    if a.is_major {
        push_piece(row, "major".to_string(), Tone::Alert);
    }
    proof {
        assert(pieces_view(row@) =~= pieces_view(old(row)@) + flag_notes(*a));
    }
}

/// The row of one update, given whether it is selected and the column
/// widths.
pub fn update_pieces(a: &Action, sel: bool, aw: usize, cw: usize, lw: usize) -> (r: Vec<Piece>)
    requires
        short_ref_ok(*a),
    ensures
        pieces_view(r@) == update_view(*a, sel, aw as nat, cw as nat, lw as nat),
{
    let mut row: Vec<Piece> = Vec::new();
    push_piece(&mut row, "  ".to_string(), Tone::Plain);
    push_piece(&mut row, (if sel { "[x]" } else { "[ ]" }).to_string(), if sel { Tone::Good } else { Tone::Muted });
    push_piece(&mut row, " ".to_string(), Tone::Plain);
    push_piece(&mut row, padded(a.action_name().as_str(), aw), Tone::Bold);
    push_piece(&mut row, "  ".to_string(), Tone::Plain);
    let tone = if a.sha_mismatch || a.is_branch {
        Tone::Warn
    } else if a.is_major {
        Tone::Alert
    } else {
        Tone::Good
    };
    push_piece(&mut row, padded(change_string(a).as_str(), cw), tone);
    push_piece(&mut row, "  ".to_string(), Tone::Plain);
    push_piece(&mut row, padded(loc_string(a).as_str(), lw), Tone::Muted);
    proof {
        assert(pieces_view(row@) =~= base_view(*a, sel, aw as nat, cw as nat, lw as nat));
    }
    push_ref_notes(&mut row, a);
    push_flag_notes(&mut row, a);
    row
}

/// The pieces of a row with its first `n` characters scrolled out of
/// view: pieces that scroll out entirely are dropped, the first one left is
/// cut.
pub open spec fn scrolled(ps: Seq<(Seq<char>, Tone)>, n: nat) -> Seq<(Seq<char>, Tone)>
    decreases ps.len(),
{
    if ps.len() == 0 || n == 0 {
        ps
    } else if ps[0].0.len() <= n {
        scrolled(ps.drop_first(), (n - ps[0].0.len()) as nat)
    } else {
        seq![(ps[0].0.skip(n as int), ps[0].1)] + ps.drop_first()
    }
}

/// `row` scrolled sideways by `n` characters.
pub fn scroll_pieces(row: Vec<Piece>, n: usize) -> (r: Vec<Piece>)
    ensures
        pieces_view(r@) == scrolled(pieces_view(row@), n as nat),
{
    let mut out: Vec<Piece> = Vec::new();
    let mut remaining: usize = n;
    let mut i: usize = 0;
    proof {
        assert(pieces_view(row@).skip(0) =~= pieces_view(row@));
        assert(pieces_view(out@) =~= Seq::<(Seq<char>, Tone)>::empty());
        assert(Seq::<(Seq<char>, Tone)>::empty() + scrolled(pieces_view(row@), n as nat) =~= scrolled(
            pieces_view(row@),
            n as nat,
        ));
    }
    while i < row.len()
        invariant
            0 <= i <= row.len(),
            pieces_view(out@) + scrolled(pieces_view(row@).skip(i as int), remaining as nat) == scrolled(
                pieces_view(row@),
                n as nat,
            ),
        decreases row.len() - i,
    {
        let ghost rest = pieces_view(row@).skip(i as int);
        proof {
            assert(rest.drop_first() =~= pieces_view(row@).skip(i as int + 1));
            assert(rest[0] == (row@[i as int].text@, row@[i as int].tone));
        }
        let p = &row[i];
        let ghost before = pieces_view(out@);
        if remaining == 0 {
            push_piece(&mut out, p.text.clone(), p.tone);
            proof {
                assert(before.push(rest[0]) + rest.drop_first() =~= before + rest);
            }
        } else {
            let cs = chars_of(p.text.as_str());
            if remaining >= cs.len() {
                remaining = remaining - cs.len();
            } else {
                let cut = string_of_range(&cs, remaining, cs.len());
                push_piece(&mut out, cut, p.tone);
                proof {
                    assert(cs@.subrange(remaining as int, cs@.len() as int) =~= rest[0].0.skip(remaining as int));
                    assert(before.push((rest[0].0.skip(remaining as int), rest[0].1)) + rest.drop_first() =~= before
                        + (seq![(rest[0].0.skip(remaining as int), rest[0].1)] + rest.drop_first()));
                }
                remaining = 0;
            }
        }
        i += 1;
    }
    proof {
        assert(pieces_view(row@).skip(row.len() as int) =~= Seq::<(Seq<char>, Tone)>::empty());
    }
    out
}

/// How many of the first `n` updates (paired with their selection) are in
/// `file`, and how many of those are selected.
pub open spec fn counts_upto(actions: Seq<Action>, sel: Seq<bool>, file: Seq<char>, n: nat) -> (nat, nat)
    decreases n,
{
    if n == 0 {
        (0, 0)
    } else {
        let (s, t) = counts_upto(actions, sel, file, (n - 1) as nat);
        if actions[n - 1].file@ == file {
            (if sel[n - 1] { s + 1 } else { s }, t + 1)
        } else {
            (s, t)
        }
    }
}

/// The selected and total updates of `file`, over the updates that have a
/// selection entry.
pub open spec fn file_counts(actions: Seq<Action>, sel: Seq<bool>, file: Seq<char>) -> (nat, nat) {
    counts_upto(actions, sel, file, if actions.len() < sel.len() { actions.len() } else { sel.len() })
}

fn count_file(actions: &[Action], sel: &[bool], file: &str) -> (r: (usize, usize))
    ensures
        (r.0 as nat, r.1 as nat) == file_counts(actions@, sel@, file@),
{
    let n = if actions.len() < sel.len() { actions.len() } else { sel.len() };
    let mut s: usize = 0;
    let mut t: usize = 0;
    let mut i: usize = 0;
    while i < n
        invariant
            0 <= i <= n,
            n <= actions.len(),
            n <= sel.len(),
            (s as nat, t as nat) == counts_upto(actions@, sel@, file@, i as nat),
            s <= t <= i,
        decreases n - i,
    {
        if str_eq(actions[i].file.as_str(), file) {
            if sel[i] {
                s = s + 1;
            }
            t = t + 1;
        }
        i += 1;
    }
    (s, t)
}

/// The widths of the three columns.
pub open spec fn widths_of(actions: Seq<Action>) -> (nat, nat, nat) {
    (
        widest(actions, |a: Action| name_width(a)),
        widest(actions, |a: Action| change_width(a)),
        widest(actions, |a: Action| loc_width(a)),
    )
}

/// No row is wider than the machine can count.
pub open spec fn widths_fit(actions: Seq<Action>) -> bool {
    let w = widths_of(actions);
    forall|k: int| 0 <= k < actions.len() ==> item_width(#[trigger] actions[k], w.0, w.1, w.2) <= usize::MAX
}

/// The row shown for `row`, before scrolling.
pub open spec fn row_pieces(actions: Seq<Action>, state: State, row: VisibleRow) -> Seq<(Seq<char>, Tone)> {
    let w = widths_of(actions);
    match row {
        VisibleRow::FileHeader { file } => header_view(
            file@,
            file_counts(actions, state.selected@, file@).0,
            file_counts(actions, state.selected@, file@).1,
            folded(state.collapsed@, file@),
        ),
        VisibleRow::Update { original_index } => update_view(
            actions[original_index as int],
            state.selected@[original_index as int],
            w.0,
            w.1,
            w.2,
        ),
    }
}

/// How far the rows are scrolled in an area `width` columns wide.
pub open spec fn row_offset(actions: Seq<Action>, state: State, width: nat) -> nat {
    let w = widths_of(actions);
    spec_h_offset(state.h_scroll as nat, widest(actions, |a: Action| item_width(a, w.0, w.1, w.2)), width)
}

/// Each update row names an update that exists and has a selection entry,
/// and its new ref can be shortened.
pub open spec fn rows_ok(actions: Seq<Action>, state: State, visible: Seq<VisibleRow>) -> bool {
    forall|k: int|
        0 <= k < visible.len() ==> (#[trigger] visible[k] matches VisibleRow::Update { original_index } ==> (
        original_index < actions.len() && original_index < state.selected@.len() && short_ref_ok(
            actions[original_index as int],
        )))
}

/// The picker's rows as they show in an area `width` columns wide: a
/// header for each file and a row for each update, aligned in columns and
/// scrolled sideways as far as the state asks and the widest row allows.
pub fn list_rows(actions: &[Action], visible: &[VisibleRow], state: &State, width: u16) -> (r: Vec<Vec<Piece>>)
    requires
        widths_fit(actions@),
        rows_ok(actions@, *state, visible@),
    ensures
        r@.len() == visible@.len(),
        forall|k: int|
            0 <= k < r@.len() ==> pieces_view(#[trigger] r@[k]@) == scrolled(
                row_pieces(actions@, *state, visible@[k]),
                row_offset(actions@, *state, width as nat),
            ),
{
    let (aw, cw, lw) = column_widths(actions);
    let content = content_width(actions, aw, cw, lw);
    let offset = h_offset(state.h_scroll, content, width);
    let mut out: Vec<Vec<Piece>> = Vec::new();
    let mut k: usize = 0;
    while k < visible.len()
        invariant
            0 <= k <= visible.len(),
            out@.len() == k,
            (aw as nat, cw as nat, lw as nat) == widths_of(actions@),
            offset == row_offset(actions@, *state, width as nat),
            rows_ok(actions@, *state, visible@),
            forall|j: int|
                0 <= j < k ==> pieces_view(#[trigger] out@[j]@) == scrolled(
                    row_pieces(actions@, *state, visible@[j]),
                    offset as nat,
                ),
        decreases visible.len() - k,
    {
        let row = match &visible[k] {
            VisibleRow::FileHeader { file } => {
                let (s, t) = count_file(actions, &state.selected, file.as_str());
                header_pieces(file.as_str(), s, t, super::is_folded(&state.collapsed, file.as_str()))
            },
            VisibleRow::Update { original_index } => {
                let i = *original_index;
                update_pieces(&actions[i], state.selected[i], aw, cw, lw)
            },
        };
        let row = scroll_pieces(row, offset);
        out.push(row);
        k += 1;
    }
    out
}

/// The title of the picker: how many of the updates are selected.
pub open spec fn title_text(selected: nat, count: nat) -> Seq<char> {
    " Updates \u{2014} "@ + dec_string(selected) + "/"@ + dec_string(count) + " selected "@
}

/// The picker's title for `count` updates.
pub fn list_title(state: &State, count: usize) -> (r: String)
    ensures
        r@ == title_text(super::indices_of(state.selected@).len(), count as nat),
{
    let selected = state.selected_indices().len();
    let mut s = String::new();
    push_str(&mut s, " Updates \u{2014} ");
    push_decimal(&mut s, selected as u64);
    push_str(&mut s, "/");
    push_decimal(&mut s, count as u64);
    push_str(&mut s, " selected ");
    proof {
        assert(s@ =~= title_text(super::indices_of(state.selected@).len(), count as nat));
    }
    s
}

} // verus!
