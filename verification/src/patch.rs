//! Line edits that rewrite `uses:` texts, and how they are applied to the
//! lines of a file.
use vstd::prelude::*;

use crate::model::PinStyle;
use crate::render::{debug_quoted, dec_string, push_decimal, quote_debug};
use crate::text::{contains_seq, contains_str, push_str, replace_first, replace_first_str, str_eq};
use crate::update::Candidate;

verus! {

/// One edit: on `line` of `file`, replace `old_text` by `new_text`.
#[derive(Debug, Clone, PartialEq, Eq)]
pub struct PatchEdit {
    pub file: String,
    pub line: usize,
    pub old_text: String,
    pub new_text: String,
}

/// The name of a candidate's action: its repository and, when it has one,
/// the path inside it.
pub open spec fn spec_action_name(repo: Seq<char>, path: Seq<char>) -> Seq<char> {
    if path.len() == 0 {
        repo
    } else {
        repo + "/"@ + path
    }
}

pub fn action_name(repo: &str, path: &str) -> (r: String)
    ensures
        r@ == spec_action_name(repo@, path@),
{
    if path.is_empty() {
        repo.to_string()
    } else {
        let mut s = repo.to_string();
        push_str(&mut s, "/");
        push_str(&mut s, path);
        proof {
            reveal_strlit("/");
        }
        s
    }
}

/// The `uses:` text a candidate has now.
pub open spec fn spec_current_uses(c: Candidate) -> Seq<char> {
    spec_action_name(c.action.repo@, c.action.path@) + "@"@ + c.action.ref_name@
}

/// The `uses:` text a candidate moves to: a SHA pin that differs from the
/// version also gets the version as a comment.
pub open spec fn spec_target_uses(c: Candidate) -> Seq<char> {
    let target = spec_action_name(c.action.repo@, c.action.path@) + "@"@ + c.target_ref@;
    if c.pin == PinStyle::Sha && c.target_ref@ != c.version@ {
        target + " # "@ + c.version@
    } else {
        target
    }
}

pub fn current_uses_text(candidate: &Candidate) -> (r: String)
    ensures
        r@ == spec_current_uses(*candidate),
{
    let mut s = action_name(candidate.action.repo.as_str(), candidate.action.path.as_str());
    push_str(&mut s, "@");
    push_str(&mut s, candidate.action.ref_name.as_str());
    proof {
        reveal_strlit("@");
    }
    s
}

pub fn target_uses_text(candidate: &Candidate) -> (r: String)
    ensures
        r@ == spec_target_uses(*candidate),
{
    let mut s = action_name(candidate.action.repo.as_str(), candidate.action.path.as_str());
    push_str(&mut s, "@");
    push_str(&mut s, candidate.target_ref.as_str());
    proof {
        reveal_strlit("@");
        reveal_strlit(" # ");
    }
    if candidate.pin == PinStyle::Sha && !str_eq(candidate.target_ref.as_str(), candidate.version.as_str()) {
        push_str(&mut s, " # ");
        push_str(&mut s, candidate.version.as_str());
    }
    s
}

/// `e` is the edit of candidate `c`.
pub open spec fn is_edit_of(e: PatchEdit, c: Candidate) -> bool {
    &&& e.file == c.action.file
    &&& e.line == c.action.line
    &&& e.old_text@ == spec_current_uses(c)
    &&& e.new_text@ == spec_target_uses(c)
}

/// The selected indices that name a candidate, in order.
pub open spec fn picked(n: int, sel: Seq<usize>) -> Seq<usize>
    decreases sel.len(),
{
    if sel.len() == 0 {
        Seq::empty()
    } else if sel.last() < n {
        picked(n, sel.drop_last()).push(sel.last())
    } else {
        picked(n, sel.drop_last())
    }
}

/// The edits of the selected candidates, in the order of `selected_indexes`;
/// an index past the end is skipped.
pub fn update_patch_edits(candidates: &[Candidate], selected_indexes: &[usize]) -> (r: Vec<PatchEdit>)
    ensures
        r@.len() == picked(candidates@.len() as int, selected_indexes@).len(),
        forall|k: int|
            0 <= k < r@.len() ==> is_edit_of(
                #[trigger] r@[k],
                candidates@[picked(candidates@.len() as int, selected_indexes@)[k] as int],
            ),
{
    let ghost n = candidates@.len() as int;
    let mut out: Vec<PatchEdit> = Vec::new();
    let mut i: usize = 0;
    while i < selected_indexes.len()
        invariant
            0 <= i <= selected_indexes.len(),
            n == candidates@.len(),
            out@.len() == picked(n, selected_indexes@.take(i as int)).len(),
            forall|k: int|
                0 <= k < out@.len() ==> is_edit_of(
                    #[trigger] out@[k],
                    candidates@[picked(n, selected_indexes@.take(i as int))[k] as int],
                ),
        decreases selected_indexes.len() - i,
    {
        proof {
            assert(selected_indexes@.take(i as int + 1).drop_last() == selected_indexes@.take(i as int));
            assert(selected_indexes@.take(i as int + 1).last() == selected_indexes@[i as int]);
        }
        let index = selected_indexes[i];
        if index < candidates.len() {
            let c = &candidates[index];
            let edit = PatchEdit {
                file: c.action.file.clone(),
                line: c.action.line,
                old_text: current_uses_text(c),
                new_text: target_uses_text(c),
            };
            out.push(edit);
        }
        i += 1;
    }
    proof {
        assert(selected_indexes@.take(selected_indexes@.len() as int) == selected_indexes@);
    }
    out
}

/// One edit applied to the lines of `file`, or the error that stops it.
#[verifier::opaque]
pub open spec fn patch_step(lines: Seq<Seq<char>>, file: Seq<char>, line: nat, old: Seq<char>, new: Seq<char>) -> Result<
    Seq<Seq<char>>,
    Seq<char>,
> {
    if line == 0 {
        Err("invalid patch line "@ + dec_string(line) + " in "@ + file)
    } else if line - 1 >= lines.len() {
        Err("cannot patch "@ + file + ":"@ + dec_string(line) + " because the line no longer exists"@)
    } else if !contains_seq(lines[line - 1], old) {
        Err("cannot patch "@ + file + ":"@ + dec_string(line) + " because "@ + debug_quoted(old)
            + " is no longer present"@)
    } else {
        Ok(lines.update(line - 1, replace_first(lines[line - 1], old, new)))
    }
}

pub open spec fn line_views(lines: Seq<String>) -> Seq<Seq<char>> {
    lines.map_values(|l: String| l@)
}

/// Applies one edit to `lines`, which hold `file`.
pub fn patch_line(lines: &mut Vec<String>, file: &str, line: usize, old_text: &str, new_text: &str) -> (r: Result<(), String>)
    ensures
        match patch_step(line_views(old(lines)@), file@, line as nat, old_text@, new_text@) {
            Ok(ls) => r is Ok && line_views(final(lines)@) == ls,
            Err(e) => r matches Err(m) && m@ == e && final(lines)@ == old(lines)@,
        },
{
    proof {
        reveal(patch_step);
        reveal_strlit("invalid patch line ");
        reveal_strlit(" in ");
        reveal_strlit("cannot patch ");
        reveal_strlit(":");
        reveal_strlit(" because the line no longer exists");
        reveal_strlit(" because ");
        reveal_strlit(" is no longer present");
    }
    if line == 0 {
        let mut m = String::new();
        push_str(&mut m, "invalid patch line ");
        push_decimal(&mut m, line as u64);
        push_str(&mut m, " in ");
        push_str(&mut m, file);
        return Err(m);
    }
    let idx = line - 1;
    if idx >= lines.len() {
        let mut m = String::new();
        push_str(&mut m, "cannot patch ");
        push_str(&mut m, file);
        push_str(&mut m, ":");
        push_decimal(&mut m, line as u64);
        push_str(&mut m, " because the line no longer exists");
        return Err(m);
    }
    if !contains_str(lines[idx].as_str(), old_text) {
        let mut m = String::new();
        push_str(&mut m, "cannot patch ");
        push_str(&mut m, file);
        push_str(&mut m, ":");
        push_decimal(&mut m, line as u64);
        push_str(&mut m, " because ");
        let q = quote_debug(old_text);
        push_str(&mut m, q.as_str());
        push_str(&mut m, " is no longer present");
        return Err(m);
    }
    let updated = replace_first_str(lines[idx].as_str(), old_text, new_text);
    let ghost before = lines@;
    lines.set(idx, updated);
    proof {
        assert(line_views(lines@) =~= line_views(before).update(
            idx as int,
            replace_first(before[idx as int]@, old_text@, new_text@),
        ));
    }
    Ok(())
}

/// The edits of `file` applied in order to its lines, up to the first error.
pub open spec fn patch_edits(lines: Seq<Seq<char>>, edits: Seq<PatchEdit>, file: Seq<char>) -> Result<
    Seq<Seq<char>>,
    Seq<char>,
>
    decreases edits.len(),
{
    if edits.len() == 0 {
        Ok(lines)
    } else {
        match patch_edits(lines, edits.drop_last(), file) {
            Err(e) => Err(e),
            Ok(ls) => {
                let e = edits.last();
                if e.file@ == file {
                    patch_step(ls, e.file@, e.line as nat, e.old_text@, e.new_text@)
                } else {
                    Ok(ls)
                }
            },
        }
    }
}

/// Applies the edits of `file` to its lines, in order, stopping at the
/// first that cannot be applied.
pub fn patch_file(lines: &mut Vec<String>, edits: &[PatchEdit], file: &str) -> (r: Result<(), String>)
    ensures
        match patch_edits(line_views(old(lines)@), edits@, file@) {
            Ok(ls) => r is Ok && line_views(final(lines)@) == ls,
            Err(e) => r matches Err(m) && m@ == e,
        },
{
    let ghost start = line_views(lines@);
    let mut i: usize = 0;
    while i < edits.len()
        invariant
            0 <= i <= edits.len(),
            start == line_views(old(lines)@),
            patch_edits(start, edits@.take(i as int), file@) == Ok::<Seq<Seq<char>>, Seq<char>>(
                line_views(lines@),
            ),
        decreases edits.len() - i,
    {
        proof {
            assert(edits@.take(i as int + 1).drop_last() == edits@.take(i as int));
            assert(edits@.take(i as int + 1).last() == edits@[i as int]);
        }
        let e = &edits[i];
        if str_eq(e.file.as_str(), file) {
            match patch_line(lines, e.file.as_str(), e.line, e.old_text.as_str(), e.new_text.as_str()) {
                Ok(()) => {},
                Err(m) => {
                    proof {
                        assert(patch_edits(start, edits@.take(i as int + 1), file@) == Err::<
                            Seq<Seq<char>>,
                            Seq<char>,
                        >(m@));
                        lemma_patch_edits_err(start, edits@, file@, i as int + 1);
                    }
                    return Err(m);
                },
            }
        }
        i += 1;
    }
    proof {
        assert(edits@.take(edits@.len() as int) == edits@);
    }
    Ok(())
}

/// An error on a prefix of the edits is the error of all of them.
pub proof fn lemma_patch_edits_err(lines: Seq<Seq<char>>, edits: Seq<PatchEdit>, file: Seq<char>, n: int)
    requires
        0 <= n <= edits.len(),
        patch_edits(lines, edits.take(n), file) is Err,
    ensures
        patch_edits(lines, edits, file) == patch_edits(lines, edits.take(n), file),
    decreases edits.len() - n,
{
    if n < edits.len() {
        assert(edits.take(n + 1).drop_last() == edits.take(n));
        lemma_patch_edits_err(lines, edits, file, n + 1);
    } else {
        assert(edits.take(n) == edits);
    }
}

} // verus!
