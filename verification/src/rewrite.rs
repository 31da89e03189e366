//! Rewriting the `uses:` refs of a workflow file's text: each selected
//! action's ref is replaced in place, and a version comment is written
//! after it where one is due.
use vstd::prelude::*;

use crate::model::Action;
use crate::text::{blen, byte_len, char_boundary, chars_at_byte, chars_in_bytes, chars_of, push_str, str_eq, string_of};

verus! {

/// Why rewriting failed.
#[derive(Debug, Clone, PartialEq, Eq)]
pub enum RewriteError {
    /// A ref to replace is not where the scan found it.
    UpdateTargetNotFound,
    /// Reading or writing the file failed (the error's text).
    Io(String),
}

impl RewriteError {
    /// The user-facing text of this error.
    pub fn message(&self) -> (r: String)
        ensures
            self is UpdateTargetNotFound ==> r@ == "update target not found in source file"@,
            self matches RewriteError::Io(e) ==> r@ == e@,
    {
        proof {
            reveal_strlit("update target not found in source file");
        }
        match self {
            RewriteError::UpdateTargetNotFound => "update target not found in source file".to_string(),
            RewriteError::Io(e) => e.clone(),
        }
    }
}

/// A version comment is written when there is a version, and the new ref is
/// not the version itself, or the line had a version comment, or its SHA
/// disagreed with its comment.
pub open spec fn spec_should_write_comment(a: Action) -> bool {
    a.new_version@.len() > 0 && (a.new_ref@ != a.new_version@ || a.version_comment is Some || a.sha_mismatch)
}

pub fn should_write_comment(action: &Action) -> (r: bool)
    ensures
        r == spec_should_write_comment(*action),
{
    !action.new_version.as_str().is_empty() && (!str_eq(action.new_ref.as_str(), action.new_version.as_str())
        || action.version_comment.is_some() || action.sha_mismatch)
}

// ---------------------------------------------------------------------------
// Positions in the text, in characters
// ---------------------------------------------------------------------------

/// The character index of byte offset `b` of `s`.
pub open spec fn cidx(s: Seq<char>, b: int) -> int {
    chars_at_byte(s, b)
}

/// The byte offsets of the action lie in order inside `s` and its old ref
/// stands there.
pub open spec fn target_ok(s: Seq<char>, a: Action) -> bool {
    &&& a.ref_start <= a.ref_end
    &&& a.ref_end <= blen(s)
    &&& s.subrange(cidx(s, a.ref_start as int), cidx(s, a.ref_end as int)) == a.current_ref@
}

/// Offsets in range fall between characters.
pub open spec fn bounds_ok(s: Seq<char>, a: Action) -> bool {
    (a.ref_start <= a.ref_end && a.ref_end <= blen(s)) ==> char_boundary(s, a.ref_start as int)
        && char_boundary(s, a.ref_end as int)
}

/// Whether a character ends a line.
pub open spec fn is_nl() -> spec_fn(char) -> bool {
    |ch: char| ch == '\n'
}

/// The end of the line that holds position `c`, before a `\r\n` or `\n`.
pub open spec fn line_end_at(s: Seq<char>, c: int) -> int {
    match crate::text::find_from(s, is_nl(), c) {
        Some(abs) => if abs > 0 && s[abs - 1] == '\r' {
            abs - 1
        } else {
            abs
        },
        None => s.len() as int,
    }
}

/// The index of the first `#` from `i` to `end` that is outside quotes,
/// with `q` the quote open at `i`.
pub open spec fn scan_comment(s: Seq<char>, i: int, end: int, q: Option<char>) -> Option<int>
    decreases end - i,
{
    if i >= end {
        None
    } else {
        let ch = s[i];
        match q {
            Some(qc) => scan_comment(
                s,
                i + 1,
                end,
                if ch == qc {
                    None
                } else {
                    q
                },
            ),
            None => if ch == '"' || ch == '\'' {
                scan_comment(s, i + 1, end, Some(ch))
            } else if ch == '#' {
                Some(i)
            } else {
                scan_comment(s, i + 1, end, None)
            },
        }
    }
}

/// The index after the last `\n` before `off`, or 0.
pub open spec fn line_start_at(s: Seq<char>, off: int) -> int
    decreases off,
{
    if off <= 0 {
        0
    } else if s[off - 1] == '\n' {
        off
    } else {
        line_start_at(s, off - 1)
    }
}

/// The index of the first `\n` from `off`, or the end.
pub open spec fn newline_from(s: Seq<char>, off: int) -> int {
    match crate::text::find_from(s, is_nl(), off) {
        Some(i) => i,
        None => s.len() as int,
    }
}

/// Where the comment of the line holding `off` starts, if it has one.
pub open spec fn comment_start_at(s: Seq<char>, off: int) -> Option<int> {
    scan_comment(s, line_start_at(s, off), newline_from(s, off), None)
}

/// `x` moved back over spaces and tabs, but not before `c`.
pub open spec fn back_over_blanks(s: Seq<char>, c: int, x: int) -> int
    decreases x,
{
    if x > c && x > 0 && (s[x - 1] == ' ' || s[x - 1] == '\t') {
        back_over_blanks(s, c, x - 1)
    } else {
        x
    }
}

/// Where the version comment goes on the line of `c`: before the blanks
/// ahead of an existing comment, or at the end of the line.
pub open spec fn comment_pos(s: Seq<char>, c: int) -> int {
    match comment_start_at(s, c) {
        Some(x) => back_over_blanks(s, c, x),
        None => line_end_at(s, c),
    }
}

/// The rewritten text from the `k`-th action on, with the text so far in
/// `out` and the copy resumed at `cursor`; `None` where a piece to copy
/// would run backwards.
pub open spec fn write_from(s: Seq<char>, acts: Seq<Action>, k: int, cursor: int, out: Seq<char>) -> Option<
    Seq<char>,
>
    decreases acts.len() - k,
{
    if k >= acts.len() || k < 0 {
        if 0 <= cursor <= s.len() {
            Some(out + s.skip(cursor))
        } else {
            None
        }
    } else {
        let a = acts[k];
        let st = cidx(s, a.ref_start as int);
        let en = cidx(s, a.ref_end as int);
        if cursor < 0 || cursor > st {
            None
        } else {
            let out1 = out + s.subrange(cursor, st) + a.new_ref@;
            if !spec_should_write_comment(a) {
                write_from(s, acts, k + 1, en, out1)
            } else {
                let cp = comment_pos(s, en);
                if en > cp {
                    None
                } else {
                    write_from(
                        s,
                        acts,
                        k + 1,
                        line_end_at(s, en),
                        out1 + s.subrange(en, cp) + " # "@ + a.new_version@,
                    )
                }
            }
        }
    }
}

// ---------------------------------------------------------------------------
// The order of the actions
// ---------------------------------------------------------------------------

/// `x` inserted after every index whose action starts no later.
pub open spec fn insert_by_start(s: Seq<usize>, x: usize, keys: Seq<usize>) -> Seq<usize>
    decreases s.len(),
{
    if s.len() == 0 {
        seq![x]
    } else if keys[x as int] < keys[s[0] as int] {
        seq![x] + s
    } else {
        seq![s[0]] + insert_by_start(s.drop_first(), x, keys)
    }
}

/// The first `n` indices ordered by `keys`, equal keys in index order (a
/// stable sort).
pub open spec fn sort_by_start(n: nat, keys: Seq<usize>) -> Seq<usize>
    decreases n,
{
    if n == 0 {
        Seq::empty()
    } else {
        insert_by_start(sort_by_start((n - 1) as nat, keys), (n - 1) as usize, keys)
    }
}

pub open spec fn starts_of(acts: Seq<Action>) -> Seq<usize> {
    acts.map_values(|a: Action| a.ref_start)
}

pub open spec fn in_order(acts: Seq<Action>) -> Seq<Action> {
    sort_by_start(acts.len(), starts_of(acts)).map_values(|i: usize| acts[i as int])
}

pub open spec fn below(s: Seq<usize>, n: int) -> bool {
    forall|k: int| 0 <= k < s.len() ==> (#[trigger] s[k]) < n
}

proof fn lemma_insert_by_start(s: Seq<usize>, x: usize, keys: Seq<usize>, j: int)
    requires
        0 <= j <= s.len(),
        forall|k: int| 0 <= k < j ==> !(keys[x as int] < keys[#[trigger] s[k] as int]),
        j < s.len() ==> keys[x as int] < keys[s[j] as int],
    ensures
        insert_by_start(s, x, keys) == s.take(j) + seq![x] + s.skip(j),
    decreases s.len(),
{
    if s.len() == 0 {
        assert(s.take(j) + seq![x] + s.skip(j) =~= seq![x]);
    } else if j == 0 {
        assert(s.take(0) + seq![x] + s.skip(0) =~= seq![x] + s);
    } else {
        let t = s.drop_first();
        assert forall|k: int| 0 <= k < j - 1 implies !(keys[x as int] < keys[#[trigger] t[k] as int]) by {
            assert(t[k] == s[k + 1]);
        }
        lemma_insert_by_start(t, x, keys, j - 1);
        assert(seq![s[0]] + (t.take(j - 1) + seq![x] + t.skip(j - 1)) =~= s.take(j) + seq![x] + s.skip(j));
    }
}

proof fn lemma_insert_below(s: Seq<usize>, x: usize, keys: Seq<usize>, n: int)
    requires
        below(s, n),
        x < n,
    ensures
        below(insert_by_start(s, x, keys), n),
        insert_by_start(s, x, keys).len() == s.len() + 1,
    decreases s.len(),
{
    if s.len() > 0 && !(keys[x as int] < keys[s[0] as int]) {
        let t = s.drop_first();
        assert forall|k: int| 0 <= k < t.len() implies (#[trigger] t[k]) < n by {
            assert(t[k] == s[k + 1]);
        }
        lemma_insert_below(t, x, keys, n);
        let r = seq![s[0]] + insert_by_start(t, x, keys);
        assert forall|k: int| 0 <= k < r.len() implies (#[trigger] r[k]) < n by {
            if k > 0 {
                assert(r[k] == insert_by_start(t, x, keys)[k - 1]);
            }
        }
    } else if s.len() > 0 {
        let r = seq![x] + s;
        assert forall|k: int| 0 <= k < r.len() implies (#[trigger] r[k]) < n by {
            if k > 0 {
                assert(r[k] == s[k - 1]);
            }
        }
    }
}

/// The indices of the actions, ordered by where their refs start.
fn order_by_start(actions: &[Action]) -> (r: Vec<usize>)
    ensures
        r@ == sort_by_start(actions@.len(), starts_of(actions@)),
        below(r@, actions@.len() as int),
        r@.len() == actions@.len(),
{
    let ghost keys = starts_of(actions@);
    let mut out: Vec<usize> = Vec::new();
    let mut i: usize = 0;
    while i < actions.len()
        invariant
            0 <= i <= actions.len(),
            keys == starts_of(actions@),
            out@ == sort_by_start(i as nat, keys),
            below(out@, i as int),
            out@.len() == i,
        decreases actions.len() - i,
    {
        let mut j: usize = 0;
        let mut stop = false;
        while !stop && j < out.len()
            invariant
                0 <= j <= out.len(),
                i < actions.len(),
                keys == starts_of(actions@),
                below(out@, i as int),
                forall|k: int| 0 <= k < j ==> !(keys[i as int] < keys[#[trigger] out@[k] as int]),
                stop ==> j < out.len() && keys[i as int] < keys[out@[j as int] as int],
            decreases out.len() - j + if stop {
                0int
            } else {
                1int
            },
        {
            let other = out[j];
            if actions[i].ref_start < actions[other].ref_start {
                stop = true;
            } else {
                j += 1;
            }
        }
        proof {
            lemma_insert_by_start(out@, i as usize, keys, j as int);
            lemma_insert_below(out@, i as usize, keys, i as int + 1);
            assert forall|k: int| 0 <= k < out@.len() implies (#[trigger] out@[k]) < i + 1 by {}
        }
        out.insert(j, i);
        i += 1;
    }
    out
}


// ---------------------------------------------------------------------------
// Finding the positions
// ---------------------------------------------------------------------------

fn newline_index(cs: &[char], off: usize) -> (r: usize)
    requires
        off <= cs.len(),
    ensures
        r == newline_from(cs@, off as int),
        off <= r <= cs.len(),
{
    let mut i = off;
    while i < cs.len()
        invariant
            off <= i <= cs.len(),
            crate::text::find_from(cs@, is_nl(), off as int) == crate::text::find_from(cs@, is_nl(), i as int),
        decreases cs.len() - i,
    {
        if cs[i] == '\n' {
            return i;
        }
        i += 1;
    }
    i
}

fn line_end(cs: &[char], c: usize) -> (r: usize)
    requires
        c <= cs.len(),
    ensures
        r == line_end_at(cs@, c as int),
        r <= cs.len(),
{
    let n = newline_index(cs, c);
    proof {
        crate::text::lemma_find_from_result(cs@, is_nl(), c as int);
    }
    if n < cs.len() {
        if n > 0 && cs[n - 1] == '\r' {
            n - 1
        } else {
            n
        }
    } else {
        cs.len()
    }
}

fn line_start(cs: &[char], off: usize) -> (r: usize)
    requires
        off <= cs.len(),
    ensures
        r == line_start_at(cs@, off as int),
        r <= off,
{
    let mut i = off;
    while i > 0 && cs[i - 1] != '\n'
        invariant
            i <= off <= cs.len(),
            line_start_at(cs@, off as int) == line_start_at(cs@, i as int),
        decreases i,
    {
        i -= 1;
    }
    i
}

fn scan_from(cs: &[char], start: usize, end: usize) -> (r: Option<usize>)
    requires
        start <= end <= cs.len(),
    ensures
        match r {
            Some(x) => scan_comment(cs@, start as int, end as int, None) == Some(x as int),
            None => scan_comment(cs@, start as int, end as int, None) is None,
        },
{
    let mut q: Option<char> = None;
    let mut i = start;
    while i < end
        invariant
            start <= i <= end <= cs.len(),
            scan_comment(cs@, start as int, end as int, None) == scan_comment(cs@, i as int, end as int, q),
        decreases end - i,
    {
        let ch = cs[i];
        match q {
            Some(qc) => {
                if ch == qc {
                    q = None;
                }
            },
            None => {
                if ch == '"' || ch == '\'' {
                    q = Some(ch);
                } else if ch == '#' {
                    return Some(i);
                }
            },
        }
        i += 1;
    }
    None
}

fn comment_start(cs: &[char], off: usize) -> (r: Option<usize>)
    requires
        off <= cs.len(),
    ensures
        match r {
            Some(x) => comment_start_at(cs@, off as int) == Some(x as int) && x < cs.len(),
            None => comment_start_at(cs@, off as int) is None,
        },
{
    let a = line_start(cs, off);
    let b = newline_index(cs, off);
    let r = scan_from(cs, a, b);
    proof {
        if r is Some {
            lemma_scan_below(cs@, a as int, b as int, None);
        }
    }
    r
}

proof fn lemma_scan_below(s: Seq<char>, i: int, end: int, q: Option<char>)
    ensures
        scan_comment(s, i, end, q) matches Some(x) ==> i <= x < end,
    decreases end - i,
{
    if i < end {
        let ch = s[i];
        match q {
            Some(qc) => lemma_scan_below(s, i + 1, end, if ch == qc {
                None
            } else {
                q
            }),
            None => {
                if ch == '"' || ch == '\'' {
                    lemma_scan_below(s, i + 1, end, Some(ch));
                } else if ch != '#' {
                    lemma_scan_below(s, i + 1, end, None);
                }
            },
        }
    }
}

fn back_blanks(cs: &[char], c: usize, x: usize) -> (r: usize)
    requires
        x <= cs.len(),
    ensures
        r == back_over_blanks(cs@, c as int, x as int),
        r <= x,
{
    let mut y = x;
    while y > c && y > 0 && (cs[y - 1] == ' ' || cs[y - 1] == '\t')
        invariant
            y <= x <= cs.len(),
            back_over_blanks(cs@, c as int, x as int) == back_over_blanks(cs@, c as int, y as int),
        decreases y,
    {
        y -= 1;
    }
    y
}

fn comment_position(cs: &[char], c: usize) -> (r: usize)
    requires
        c <= cs.len(),
    ensures
        r == comment_pos(cs@, c as int),
        r <= cs.len(),
{
    match comment_start(cs, c) {
        Some(x) => back_blanks(cs, c, x),
        None => line_end(cs, c),
    }
}

fn same_range(cs: &[char], st: usize, en: usize, t: &str) -> (r: bool)
    requires
        st <= en <= cs.len(),
    ensures
        r == (cs@.subrange(st as int, en as int) == t@),
{
    let tc = chars_of(t);
    if en - st != tc.len() {
        proof {
            assert(cs@.subrange(st as int, en as int).len() != t@.len());
        }
        return false;
    }
    let mut i: usize = 0;
    while i < tc.len()
        invariant
            0 <= i <= tc.len(),
            st <= en <= cs.len(),
            en - st == tc.len(),
            tc@ == t@,
            forall|j: int| 0 <= j < i ==> cs@[st + j] == tc@[j],
        decreases tc.len() - i,
    {
        if cs[st + i] != tc[i] {
            proof {
                assert(cs@.subrange(st as int, en as int)[i as int] != t@[i as int]);
            }
            return false;
        }
        i += 1;
    }
    proof {
        assert(cs@.subrange(st as int, en as int) =~= t@);
    }
    true
}

fn push_range(out: &mut String, cs: &[char], from: usize, to: usize)
    requires
        from <= to <= cs.len(),
    ensures
        final(out)@ == old(out)@ + cs@.subrange(from as int, to as int),
{
    let piece = crate::text::slice_vec(cs, from, to);
    let text = string_of(&piece);
    push_str(out, text.as_str());
}

/// All the actions' refs stand where the scan found them.
pub open spec fn all_found(s: Seq<char>, acts: Seq<Action>) -> bool {
    forall|k: int| 0 <= k < acts.len() ==> target_ok(s, #[trigger] acts[k])
}

/// Replaces the refs of `actions` in `contents`, in the order in which they
/// stand, and writes a version comment after each ref that is due one: in
/// place of the line's comment, or at the end of the line. Nothing is
/// written unless every ref is found where the scan saw it.
pub fn rewrite_text(contents: &str, actions: &[Action]) -> (r: Result<String, RewriteError>)
    requires
        blen(contents@) <= usize::MAX,
        forall|k: int| 0 <= k < actions@.len() ==> bounds_ok(contents@, #[trigger] actions@[k]),
        all_found(contents@, actions@) ==> write_from(contents@, in_order(actions@), 0, 0, Seq::empty()) is Some,
    ensures
        !all_found(contents@, actions@) ==> r == Err::<String, RewriteError>(RewriteError::UpdateTargetNotFound),
        all_found(contents@, actions@) ==> (r matches Ok(out) && write_from(
            contents@,
            in_order(actions@),
            0,
            0,
            Seq::empty(),
        ) == Some(out@)),
{
    let cs = chars_of(contents);
    let total = byte_len(&cs);
    let mut k: usize = 0;
    while k < actions.len()
        invariant
            0 <= k <= actions.len(),
            cs@ == contents@,
            total == blen(contents@),
            forall|j: int| 0 <= j < actions@.len() ==> bounds_ok(contents@, #[trigger] actions@[j]),
            forall|j: int| 0 <= j < k ==> target_ok(contents@, #[trigger] actions@[j]),
        decreases actions.len() - k,
    {
        let a = &actions[k];
        proof {
            assert(bounds_ok(contents@, actions@[k as int]));
        }
        if a.ref_start > a.ref_end || a.ref_end > total {
            return Err(RewriteError::UpdateTargetNotFound);
        }
        let st = match chars_in_bytes(&cs, a.ref_start) {
            Some(n) => n,
            None => {
                return Err(RewriteError::UpdateTargetNotFound);
            },
        };
        let en = match chars_in_bytes(&cs, a.ref_end) {
            Some(n) => n,
            None => {
                return Err(RewriteError::UpdateTargetNotFound);
            },
        };
        if st > en {
            proof {
                crate::text::lemma_blen_strict(cs@, en as int, st as int);
            }
            return Err(RewriteError::UpdateTargetNotFound);
        }
        if !same_range(&cs, st, en, a.current_ref.as_str()) {
            return Err(RewriteError::UpdateTargetNotFound);
        }
        k += 1;
    }
    let order = order_by_start(actions);
    let ghost acts = in_order(actions@);
    proof {
        assert(acts.len() == order@.len());
    }
    let mut out = String::new();
    let mut cursor: usize = 0;
    let mut i: usize = 0;
    while i < order.len()
        invariant
            0 <= i <= order.len(),
            cs@ == contents@,
            total == blen(contents@),
            cursor <= cs.len(),
            acts == in_order(actions@),
            order@ == sort_by_start(actions@.len(), starts_of(actions@)),
            below(order@, actions@.len() as int),
            acts.len() == order@.len(),
            all_found(contents@, actions@),
            forall|j: int| 0 <= j < actions@.len() ==> bounds_ok(contents@, #[trigger] actions@[j]),
            write_from(contents@, acts, 0, 0, Seq::empty()) == write_from(contents@, acts, i as int, cursor as int, out@),
            write_from(contents@, acts, i as int, cursor as int, out@) is Some,
        decreases order.len() - i,
    {
        let idx = order[i];
        let a = &actions[idx];
        proof {
            assert(acts[i as int] == actions@[idx as int]);
            assert(target_ok(contents@, actions@[idx as int]));
            assert(bounds_ok(contents@, actions@[idx as int]));
        }
        let st = match chars_in_bytes(&cs, a.ref_start) {
            Some(n) => n,
            None => {
                proof {
                    assert(false);
                }
                return Err(RewriteError::UpdateTargetNotFound);
            },
        };
        let en = match chars_in_bytes(&cs, a.ref_end) {
            Some(n) => n,
            None => {
                proof {
                    assert(false);
                }
                return Err(RewriteError::UpdateTargetNotFound);
            },
        };
        proof {
            if st > en {
                crate::text::lemma_blen_strict(cs@, en as int, st as int);
            }
        }
        push_range(&mut out, &cs, cursor, st);
        push_str(&mut out, a.new_ref.as_str());
        if !should_write_comment(a) {
            cursor = en;
        } else {
            let cp = comment_position(&cs, en);
            let le = line_end(&cs, en);
            push_range(&mut out, &cs, en, cp);
            push_str(&mut out, " # ");
            push_str(&mut out, a.new_version.as_str());
            proof {
                reveal_strlit(" # ");
            }
            cursor = le;
        }
        i += 1;
    }
    push_range(&mut out, &cs, cursor, cs.len());
    proof {
        assert(cs@.subrange(cursor as int, cs@.len() as int) =~= cs@.skip(cursor as int));
    }
    Ok(out)
}


/// The selected indices that name an action, in order.
pub open spec fn picks(n: int, sel: Seq<usize>) -> Seq<usize>
    decreases sel.len(),
{
    if sel.len() == 0 {
        Seq::empty()
    } else if sel.last() < n {
        picks(n, sel.drop_last()).push(sel.last())
    } else {
        picks(n, sel.drop_last())
    }
}

/// The picks cut into runs of neighbours with the same file.
pub open spec fn runs_of(ps: Seq<usize>, files: Seq<Seq<char>>) -> Seq<Seq<usize>>
    decreases ps.len(),
{
    if ps.len() == 0 {
        Seq::empty()
    } else {
        let r = runs_of(ps.drop_last(), files);
        let x = ps.last();
        if r.len() > 0 && r.last().len() > 0 && files[r.last().last() as int] == files[x as int] {
            r.update(r.len() - 1, r.last().push(x))
        } else {
            r.push(seq![x])
        }
    }
}

pub open spec fn files_of(actions: Seq<Action>) -> Seq<Seq<char>> {
    actions.map_values(|a: Action| a.file@)
}

/// The selected actions, in the order selected, cut into runs of
/// neighbours in the same file: each run is rewritten as one file.
pub fn selected_runs(actions: &[Action], selected: &[usize]) -> (r: Vec<Vec<usize>>)
    ensures
        r@.map_values(|v: Vec<usize>| v@) == runs_of(picks(actions@.len() as int, selected@), files_of(actions@)),
{
    let ghost n = actions@.len() as int;
    let ghost files = files_of(actions@);
    let mut out: Vec<Vec<usize>> = Vec::new();
    let mut i: usize = 0;
    while i < selected.len()
        invariant
            0 <= i <= selected.len(),
            n == actions@.len(),
            files == files_of(actions@),
            out@.map_values(|v: Vec<usize>| v@) == runs_of(picks(n, selected@.take(i as int)), files),
            forall|k: int| 0 <= k < out@.len() ==> (#[trigger] out@[k])@.len() > 0,
            forall|k: int, j: int| 0 <= k < out@.len() && 0 <= j < out@[k]@.len() ==> (#[trigger] out@[k]@[j]) < n,
        decreases selected.len() - i,
    {
        proof {
            assert(selected@.take(i as int + 1).drop_last() == selected@.take(i as int));
        }
        let x = selected[i];
        if x < actions.len() {
            let ghost before = out@.map_values(|v: Vec<usize>| v@);
            let ghost ps = picks(n, selected@.take(i as int + 1));
            proof {
                assert(ps.drop_last() == picks(n, selected@.take(i as int)));
                assert(ps.last() == x);
            }
            let joins = if out.len() > 0 {
                let last = &out[out.len() - 1];
                let y = last[last.len() - 1];
                proof {
                    assert(files[y as int] == actions@[y as int].file@);
                    assert(files[x as int] == actions@[x as int].file@);
                    assert(before.last() == last@);
                }
                str_eq(actions[y].file.as_str(), actions[x].file.as_str())
            } else {
                false
            };
            if joins {
                let li = out.len() - 1;
                let mut last = out.remove(li);
                last.push(x);
                out.push(last);
                proof {
                    assert(out@.map_values(|v: Vec<usize>| v@) =~= before.update(before.len() - 1, before.last().push(x)));
                }
            } else {
                let mut run: Vec<usize> = Vec::new();
                run.push(x);
                out.push(run);
                proof {
                    assert(out@.map_values(|v: Vec<usize>| v@) =~= before.push(seq![x]));
                }
            }
        }
        i += 1;
    }
    proof {
        assert(selected@.take(selected@.len() as int) == selected@);
    }
    out
}

} // verus!
