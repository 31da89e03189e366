//! Applying planned updates to the lines of a workflow file.
//!
//! Reading and writing the files is left to the caller; here a file is its
//! list of lines, and each target is checked against the scan before its line
//! is rewritten.
use vstd::prelude::*;

use crate::config::{ActioneerConfig, PinMode};
use crate::engine::opt_view;
use crate::engine::reference::sv;
use crate::engine::uses_line::{spec_format_uses_value, spec_split, UsesLine, join, split};
use crate::render::{debug_quoted, dec_string, push_decimal, quote_debug};
use crate::text::{find_first, push_str, spec_lines, split_lines, str_eq, string_of};

use super::display::{
    plan_from_label, plan_to_label, short_pin_ok, spec_plan_from_label, spec_plan_to_label,
};
use super::pin::{base_of, before_last_at};
use super::types::{
    AppliedChange, ApplyFailure, ApplyReport, ApplyTarget, PlannedChange, ReferenceReport, ScanReport,
    WorkflowReport, flat_planned, derefs_pairs,
};

verus! {

// ---------------------------------------------------------------------------
// Targets
// ---------------------------------------------------------------------------
/// The apply targets of planned rows with a source line, in report order.
pub open spec fn targets_of(ps: Seq<(String, ReferenceReport)>) -> Seq<(Seq<char>, u32)>
    decreases ps.len(),
{
    if ps.len() == 0 {
        Seq::empty()
    } else {
        let rest = targets_of(ps.drop_last());
        match ps.last().1.resolved.located.reference.line {
            Some(n) => rest.push((ps.last().0@, n)),
            None => rest,
        }
    }
}

pub open spec fn target_views(ts: Seq<ApplyTarget>) -> Seq<(Seq<char>, u32)> {
    ts.map_values(|t: ApplyTarget| (t.workflow_path@, t.line))
}

/// All planned rows as apply targets.
pub fn all_planned_targets(report: &ScanReport) -> (r: Vec<ApplyTarget>)
    ensures
        target_views(r@) == targets_of(flat_planned(report.workflows@)),
{
    let planned = report.planned_changes();
    let ghost ps = derefs_pairs(planned@);
    let mut out: Vec<ApplyTarget> = Vec::new();
    let mut i: usize = 0;
    while i < planned.len()
        invariant
            0 <= i <= planned.len(),
            ps == derefs_pairs(planned@),
            ps == flat_planned(report.workflows@),
            target_views(out@) == targets_of(ps.take(i as int)),
        decreases planned.len() - i,
    {
        let (path, reference) = planned[i];
        proof {
            assert(ps.take(i as int + 1).drop_last() == ps.take(i as int));
            assert(ps[i as int] == (*path, *reference));
        }
        match reference.resolved.located.reference.line {
            Some(line) => {
                let ghost before = out@;
                out.push(ApplyTarget { workflow_path: path.clone(), line });
                proof {
                    assert(target_views(out@) =~= target_views(before).push((path@, line)));
                }
            },
            None => {},
        }
        i += 1;
    }
    proof {
        assert(ps.take(planned@.len() as int) == ps);
    }
    out
}

// ---------------------------------------------------------------------------
// Finding the scanned reference of a target
// ---------------------------------------------------------------------------
pub open spec fn has_line(line: u32) -> spec_fn(ReferenceReport) -> bool {
    |r: ReferenceReport| r.resolved.located.reference.line == Some(line)
}

/// The first reference on `line` in the first workflow at `path` that has
/// one: its workflow index and its reference index.
pub open spec fn find_ref_from(ws: Seq<WorkflowReport>, path: Seq<char>, line: u32, k: int) -> Option<
    (int, int),
>
    decreases ws.len() - k,
{
    if k < 0 || k >= ws.len() {
        None
    } else if ws[k].path@ == path && find_first(ws[k].references@, has_line(line)) is Some {
        Some((k, find_first(ws[k].references@, has_line(line))->0))
    } else {
        find_ref_from(ws, path, line, k + 1)
    }
}

pub open spec fn spec_find_reference(ws: Seq<WorkflowReport>, path: Seq<char>, line: u32) -> Option<
    (int, int),
> {
    find_ref_from(ws, path, line, 0)
}

fn find_in_workflow(w: &WorkflowReport, line: u32) -> (r: Option<usize>)
    ensures
        match r {
            Some(i) => find_first(w.references@, has_line(line)) == Some(i as int),
            None => find_first(w.references@, has_line(line)) is None,
        },
{
    let mut i: usize = 0;
    while i < w.references.len()
        invariant
            0 <= i <= w.references.len(),
            find_first(w.references@, has_line(line)) == crate::text::find_from(
                w.references@,
                has_line(line),
                i as int,
            ),
        decreases w.references.len() - i,
    {
        if w.references[i].resolved.located.reference.line == Some(line) {
            return Some(i);
        }
        i += 1;
    }
    None
}

/// The scanned reference that a target names.
pub fn find_reference<'a>(report: &'a ScanReport, workflow_path: &str, line: u32) -> (r: Option<
    &'a ReferenceReport,
>)
    ensures
        match spec_find_reference(report.workflows@, workflow_path@, line) {
            Some((w, i)) => 0 <= w < report.workflows@.len() && 0 <= i
                < report.workflows@[w].references@.len() && r == Some(
                &report.workflows@[w].references@[i],
            ),
            None => r is None,
        },
{
    let mut k: usize = 0;
    while k < report.workflows.len()
        invariant
            0 <= k <= report.workflows.len(),
            spec_find_reference(report.workflows@, workflow_path@, line) == find_ref_from(
                report.workflows@,
                workflow_path@,
                line,
                k as int,
            ),
        decreases report.workflows.len() - k,
    {
        let w = &report.workflows[k];
        if str_eq(w.path.as_str(), workflow_path) {
            match find_in_workflow(w, line) {
                Some(i) => {
                    proof {
                        crate::text::lemma_find_from_result(w.references@, has_line(line), 0);
                    }
                    return Some(&w.references[i]);
                },
                None => {},
            }
        }
        k += 1;
    }
    None
}

// ---------------------------------------------------------------------------
// Rewriting one line
// ---------------------------------------------------------------------------
/// The `uses:` value of a planned line: the written value with its `@ref`
/// replaced by the planned pin.
pub open spec fn spec_target_plain(raw: Seq<char>, p: PlannedChange) -> Seq<char> {
    before_last_at(raw) + "@"@ + p.to_ref@
}

fn target_value(raw: &str, planned: &PlannedChange) -> (r: String)
    ensures
        r@ == spec_target_plain(raw@, *planned),
{
    let mut out = base_of(raw);
    push_str(&mut out, "@");
    push_str(&mut out, planned.to_ref.as_str());
    proof {
        reveal_strlit("@");
    }
    out
}

/// The comment of a planned line: the target version in SHA mode; in tag
/// mode the pin, when the line already had a comment.
pub open spec fn spec_target_comment(mode: PinMode, p: PlannedChange, existing: Option<Seq<char>>) -> Option<
    Seq<char>,
> {
    match mode {
        PinMode::Sha => opt_view(p.to_comment),
        PinMode::Tag => if existing is Some {
            Some(p.to_ref@)
        } else {
            None
        },
    }
}

fn target_comment(pin: PinMode, planned: &PlannedChange, existing: &UsesLine) -> (r: Option<String>)
    ensures
        opt_view(r) == spec_target_comment(pin, *planned, sv(existing.comment)),
{
    match pin {
        PinMode::Sha => crate::text::clone_opt_string(&planned.to_comment),
        PinMode::Tag => {
            if existing.comment.is_some() {
                Some(planned.to_ref.clone())
            } else {
                None
            }
        },
    }
}

pub open spec fn line_views(lines: Seq<String>) -> Seq<Seq<char>> {
    lines.map_values(|s: String| s@)
}

/// Why the reference `rr` cannot be applied to `lines` for a target on
/// `target_line`, if it cannot.
pub open spec fn line_error(rr: ReferenceReport, target_line: u32, lines: Seq<Seq<char>>) -> Option<
    Seq<char>,
> {
    let reference = rr.resolved.located.reference;
    match rr.planned {
        None => Some("reference has no planned change"@),
        Some(_) => match reference.line {
            None => Some("reference is missing a source line number"@),
            Some(n) => if n != target_line {
                Some(
                    "line number mismatch: expected "@ + dec_string(target_line as nat) + ", found "@
                        + dec_string(n as nat),
                )
            } else if n == 0 {
                Some("invalid line number "@ + dec_string(n as nat))
            } else if n > lines.len() {
                Some("line "@ + dec_string(n as nat) + " no longer exists"@)
            } else {
                match spec_split(lines[n - 1]) {
                    None => Some("line "@ + dec_string(n as nat) + " is not a uses: line"@),
                    Some((_, value, _, _)) => if value != reference.raw@ {
                        Some(
                            "line "@ + dec_string(n as nat) + " changed since scan (expected "@
                                + debug_quoted(reference.raw@) + ")"@,
                        )
                    } else {
                        None
                    },
                }
            },
        },
    }
}

/// Why a target cannot be applied to `lines`, if it cannot.
pub open spec fn spec_apply_error(
    ws: Seq<WorkflowReport>,
    path: Seq<char>,
    target_line: u32,
    lines: Seq<Seq<char>>,
) -> Option<Seq<char>> {
    match spec_find_reference(ws, path, target_line) {
        None => Some("no planned update for line "@ + dec_string(target_line as nat)),
        Some((w, i)) => line_error(ws[w].references@[i], target_line, lines),
    }
}

/// The rewritten line for an applicable reference.
pub open spec fn spec_new_line(rr: ReferenceReport, lines: Seq<Seq<char>>, mode: PinMode) -> Seq<char> {
    let n = rr.resolved.located.reference.line->0;
    let p = rr.planned->0;
    let (head, _, quote, comment) = spec_split(lines[n - 1])->0;
    head + spec_format_uses_value(
        spec_target_plain(rr.resolved.located.reference.raw@, p),
        quote,
        spec_target_comment(mode, p, comment),
    )
}

/// Every planned change of the report has pins that its labels can shorten.
pub open spec fn labels_ok(ws: Seq<WorkflowReport>) -> bool {
    forall|w: int, i: int|
        0 <= w < ws.len() && 0 <= i < ws[w].references@.len() && (
        #[trigger] ws[w].references@[i]).planned is Some ==> short_pin_ok(
            ws[w].references@[i].planned->0.from_ref@,
        ) && short_pin_ok(ws[w].references@[i].planned->0.to_ref@)
}

fn error_with_line(prefix: &str, n: u32, suffix: &str) -> (r: String)
    ensures
        r@ == prefix@ + dec_string(n as nat) + suffix@,
{
    let mut s = prefix.to_string();
    push_decimal(&mut s, n as u64);
    push_str(&mut s, suffix);
    s
}

/// Rewrite the line of one target in `lines`: check that the scan planned a
/// change for that line and that the line still holds the scanned value,
/// then write the new value and comment.
pub fn apply_one_line(
    report: &ScanReport,
    workflow_path: &str,
    target: &ApplyTarget,
    lines: &mut Vec<String>,
    config: &ActioneerConfig,
) -> (r: Result<AppliedChange, String>)
    requires
        labels_ok(report.workflows@),
    ensures
        line_views(final(lines)@) == spec_step_lines(
            report.workflows@,
            workflow_path@,
            target.line,
            line_views(old(lines)@),
            config.pin,
        ),
        match spec_apply_error(report.workflows@, workflow_path@, target.line, line_views(old(lines)@)) {
            Some(msg) => r matches Err(e) && e@ == msg && final(lines)@ == old(lines)@,
            None => {
                let (w, i) = spec_find_reference(report.workflows@, workflow_path@, target.line)->0;
                let rr = report.workflows@[w].references@[i];
                let n = target.line as int;
                &&& r matches Ok(c)
                &&& c.workflow_path@ == workflow_path@
                &&& c.line == target.line
                &&& c.action@ == rr.resolved.located.reference.raw@
                &&& c.from@ == spec_plan_from_label(rr.resolved.located.reference.pin_kind, rr.planned->0)
                &&& c.to@ == spec_plan_to_label(rr.planned->0, config.pin)
                &&& line_views(final(lines)@) == line_views(old(lines)@).update(
                    n - 1,
                    spec_new_line(rr, line_views(old(lines)@), config.pin),
                )
            },
        },
{
    proof {
        reveal_strlit("no planned update for line ");
        reveal_strlit("");
        reveal_strlit("reference has no planned change");
        reveal_strlit("reference is missing a source line number");
        reveal_strlit("line number mismatch: expected ");
        reveal_strlit(", found ");
        reveal_strlit("invalid line number ");
        reveal_strlit("line ");
        reveal_strlit(" no longer exists");
        reveal_strlit(" is not a uses: line");
        reveal_strlit(" changed since scan (expected ");
        reveal_strlit(")");
    }
    let ghost old_views = line_views(lines@);
    let reference = match find_reference(report, workflow_path, target.line) {
        Some(r) => r,
        None => return Err(error_with_line("no planned update for line ", target.line, "")),
    };
    let ghost wi = spec_find_reference(report.workflows@, workflow_path@, target.line)->0;
    proof {
        assert(report.workflows@[wi.0].references@[wi.1] == *reference);
    }
    let planned = match &reference.planned {
        Some(p) => p,
        None => return Err("reference has no planned change".to_string()),
    };
    let action_ref = &reference.resolved.located.reference;
    let line_no = match action_ref.line {
        Some(n) => n,
        None => return Err("reference is missing a source line number".to_string()),
    };
    if line_no != target.line {
        let mut msg = error_with_line("line number mismatch: expected ", target.line, ", found ");
        push_decimal(&mut msg, line_no as u64);
        return Err(msg);
    }
    if line_no == 0 {
        return Err(error_with_line("invalid line number ", line_no, ""));
    }
    let index = (line_no - 1) as usize;
    if index >= lines.len() {
        return Err(error_with_line("line ", line_no, " no longer exists"));
    }
    let uses = match split(lines[index].as_str()) {
        Some(u) => u,
        None => return Err(error_with_line("line ", line_no, " is not a uses: line")),
    };
    if !str_eq(uses.value.as_str(), action_ref.raw.as_str()) {
        let mut msg = error_with_line("line ", line_no, " changed since scan (expected ");
        let q = quote_debug(action_ref.raw.as_str());
        push_str(&mut msg, q.as_str());
        push_str(&mut msg, ")");
        return Err(msg);
    }
    proof {
        assert(labels_ok(report.workflows@));
        assert(report.workflows@[wi.0].references@[wi.1].planned == Some(*planned));
    }
    let new_value = target_value(action_ref.raw.as_str(), planned);
    let new_comment = target_comment(config.pin, planned, &uses);
    let new_line = match &new_comment {
        Some(c) => join(&uses, new_value.as_str(), Some(c.as_str())),
        None => join(&uses, new_value.as_str(), None),
    };
    let from_label = plan_from_label(&reference.resolved, planned);
    let to_label = plan_to_label(planned, config.pin);
    lines.set(index, new_line);
    proof {
        assert(line_views(lines@) =~= old_views.update(
            index as int,
            spec_new_line(*reference, old_views, config.pin),
        ));
    }
    Ok(
        AppliedChange {
            workflow_path: workflow_path.to_string(),
            line: line_no,
            action: action_ref.raw.clone(),
            from: from_label,
            to: to_label,
        },
    )
}

/// The lines after one target is applied: unchanged when it fails.
pub open spec fn spec_step_lines(
    ws: Seq<WorkflowReport>,
    path: Seq<char>,
    target_line: u32,
    lines: Seq<Seq<char>>,
    mode: PinMode,
) -> Seq<Seq<char>> {
    match spec_apply_error(ws, path, target_line, lines) {
        Some(_) => lines,
        None => {
            let (w, i) = spec_find_reference(ws, path, target_line)->0;
            lines.update(
                target_line as int - 1,
                spec_new_line(ws[w].references@[i], lines, mode),
            )
        },
    }
}

/// Applying `ts` in turn to `lines`: the final lines, the failures (target
/// path, target line, message) and the lines of the applied changes.
pub open spec fn spec_apply_all(
    ws: Seq<WorkflowReport>,
    path: Seq<char>,
    ts: Seq<ApplyTarget>,
    lines: Seq<Seq<char>>,
    mode: PinMode,
) -> (Seq<Seq<char>>, Seq<(Seq<char>, u32, Seq<char>)>, Seq<u32>)
    decreases ts.len(),
{
    if ts.len() == 0 {
        (lines, Seq::empty(), Seq::empty())
    } else {
        let (before, fails, applied) = spec_apply_all(ws, path, ts.drop_last(), lines, mode);
        let t = ts.last();
        match spec_apply_error(ws, path, t.line, before) {
            Some(msg) => (before, fails.push((t.workflow_path@, t.line, msg)), applied),
            None => (spec_step_lines(ws, path, t.line, before, mode), fails, applied.push(t.line)),
        }
    }
}

pub open spec fn failure_views(fs: Seq<ApplyFailure>) -> Seq<(Seq<char>, u32, Seq<char>)> {
    fs.map_values(|f: ApplyFailure| (f.workflow_path@, f.line, f.message@))
}

pub open spec fn applied_lines(cs: Seq<AppliedChange>) -> Seq<u32> {
    cs.map_values(|c: AppliedChange| c.line)
}

/// Apply the targets of one workflow file to its lines, in order: the
/// changes that applied, and a failure for each target that did not.
pub fn apply_file_lines(
    report: &ScanReport,
    workflow_path: &str,
    targets: &[ApplyTarget],
    lines: &mut Vec<String>,
    config: &ActioneerConfig,
) -> (r: (Vec<AppliedChange>, Vec<ApplyFailure>))
    requires
        labels_ok(report.workflows@),
    ensures
        ({
            let (after, fails, applied) = spec_apply_all(
                report.workflows@,
                workflow_path@,
                targets@,
                line_views(old(lines)@),
                config.pin,
            );
            &&& line_views(final(lines)@) == after
            &&& failure_views(r.1@) == fails
            &&& applied_lines(r.0@) == applied
        }),
{
    let ghost start = line_views(lines@);
    let mut applied: Vec<AppliedChange> = Vec::new();
    let mut failures: Vec<ApplyFailure> = Vec::new();
    let mut k: usize = 0;
    while k < targets.len()
        invariant
            0 <= k <= targets.len(),
            labels_ok(report.workflows@),
            ({
                let (after, fails, done) = spec_apply_all(
                    report.workflows@,
                    workflow_path@,
                    targets@.take(k as int),
                    start,
                    config.pin,
                );
                &&& line_views(lines@) == after
                &&& failure_views(failures@) == fails
                &&& applied_lines(applied@) == done
            }),
        decreases targets.len() - k,
    {
        let target = &targets[k];
        proof {
            assert(targets@.take(k as int + 1).drop_last() == targets@.take(k as int));
            assert(targets@.take(k as int + 1).last() == *target);
        }
        let ghost before_f = failures@;
        let ghost before_a = applied@;
        match apply_one_line(report, workflow_path, target, lines, config) {
            Ok(change) => {
                applied.push(change);
                proof {
                    assert(applied_lines(applied@) =~= applied_lines(before_a).push(change.line));
                }
            },
            Err(message) => {
                let failure = ApplyFailure {
                    workflow_path: target.workflow_path.clone(),
                    line: target.line,
                    message,
                };
                failures.push(failure);
                proof {
                    assert(failure_views(failures@) =~= failure_views(before_f).push(
                        (target.workflow_path@, target.line, failure.message@),
                    ));
                }
            },
        }
        k += 1;
    }
    proof {
        assert(targets@.take(targets@.len() as int) == targets@);
    }
    (applied, failures)
}

/// The failures of every target of a file that could not be read or written.
pub fn fail_all(targets: &[ApplyTarget], message: &str) -> (r: Vec<ApplyFailure>)
    ensures
        r@.len() == targets@.len(),
        forall|k: int|
            0 <= k < r@.len() ==> (#[trigger] r@[k]).workflow_path == targets@[k].workflow_path
                && r@[k].line == targets@[k].line && r@[k].message@ == message@,
{
    let mut out: Vec<ApplyFailure> = Vec::new();
    let mut k: usize = 0;
    while k < targets.len()
        invariant
            0 <= k <= targets.len(),
            out@.len() == k,
            forall|j: int|
                0 <= j < k ==> (#[trigger] out@[j]).workflow_path == targets@[j].workflow_path
                    && out@[j].line == targets@[j].line && out@[j].message@ == message@,
        decreases targets.len() - k,
    {
        out.push(
            ApplyFailure {
                workflow_path: targets[k].workflow_path.clone(),
                line: targets[k].line,
                message: message.to_string(),
            },
        );
        k += 1;
    }
    out
}

// ---------------------------------------------------------------------------
// File contents
// ---------------------------------------------------------------------------
/// The lines of a file's content, as `str::lines` gives them, and whether it
/// ended with a newline.
pub fn content_lines(content: &str) -> (r: (Vec<String>, bool))
    ensures
        line_views(r.0@) == spec_lines(content@),
        r.1 == (content@.len() > 0 && content@.last() == '\n'),
{
    let cs = crate::text::chars_of(content);
    let parts = split_lines(&cs);
    let mut out: Vec<String> = Vec::new();
    let mut i: usize = 0;
    while i < parts.len()
        invariant
            0 <= i <= parts.len(),
            line_views(out@) == parts@.map_values(|l: Vec<char>| l@).take(i as int),
        decreases parts.len() - i,
    {
        let s = string_of(&parts[i]);
        let ghost before = out@;
        out.push(s);
        proof {
            assert(line_views(out@) =~= line_views(before).push(s@));
            assert(parts@.map_values(|l: Vec<char>| l@).take(i as int + 1)
                =~= parts@.map_values(|l: Vec<char>| l@).take(i as int).push(parts@[i as int]@));
        }
        i += 1;
    }
    proof {
        assert(parts@.map_values(|l: Vec<char>| l@).take(parts@.len() as int)
            =~= parts@.map_values(|l: Vec<char>| l@));
    }
    let trailing = cs.len() > 0 && cs[cs.len() - 1] == '\n';
    (out, trailing)
}

/// The lines joined with `\n`, with a final newline when `trailing` is set.
pub open spec fn joined(lines: Seq<Seq<char>>) -> Seq<char>
    decreases lines.len(),
{
    if lines.len() == 0 {
        Seq::empty()
    } else if lines.len() == 1 {
        lines[0]
    } else {
        joined(lines.drop_last()) + "\n"@ + lines.last()
    }
}

/// The content written back for `lines`.
pub fn join_lines(lines: &[String], trailing: bool) -> (r: String)
    ensures
        r@ == joined(line_views(lines@)) + if trailing {
            "\n"@
        } else {
            Seq::empty()
        },
{
    proof {
        reveal_strlit("\n");
    }
    let mut out = String::new();
    let mut i: usize = 0;
    while i < lines.len()
        invariant
            0 <= i <= lines.len(),
            out@ == joined(line_views(lines@.take(i as int))),
        decreases lines.len() - i,
    {
        proof {
            assert(line_views(lines@.take(i as int + 1)).drop_last() =~= line_views(lines@.take(i as int)));
        }
        if i > 0 {
            push_str(&mut out, "\n");
        } else {
            assert(line_views(lines@.take(0)) =~= Seq::<Seq<char>>::empty());
        }
        push_str(&mut out, lines[i].as_str());
        i += 1;
    }
    proof {
        assert(lines@.take(lines@.len() as int) =~= lines@);
    }
    if trailing {
        push_str(&mut out, "\n");
    }
    out
}


/// The targets of `ts` in the file `file`, in order.
pub open spec fn targets_in_file(ts: Seq<ApplyTarget>, file: Seq<char>) -> Seq<ApplyTarget>
    decreases ts.len(),
{
    if ts.len() == 0 {
        Seq::empty()
    } else if crate::discovery::path_eq(ts.last().workflow_path@, file) {
        targets_in_file(ts.drop_last(), file).push(ts.last())
    } else {
        targets_in_file(ts.drop_last(), file)
    }
}

pub open spec fn target_paths(ts: Seq<ApplyTarget>) -> Seq<String> {
    ts.map_values(|t: ApplyTarget| t.workflow_path)
}

/// The files that the targets name, in path order, each once (as first
/// named), with the targets of each in order.
pub fn group_by_file(targets: &[ApplyTarget]) -> (r: Vec<(String, Vec<ApplyTarget>)>)
    ensures
        r@.map_values(|g: (String, Vec<ApplyTarget>)| g.0@) == crate::discovery::insert_paths(
            Seq::empty(),
            crate::discovery::views(target_paths(targets@)),
            true,
        ),
        forall|k: int|
            0 <= k < r@.len() ==> (#[trigger] r@[k]).1@ == targets_in_file(targets@, r@[k].0@),
{
    let mut paths: Vec<String> = Vec::new();
    let mut i: usize = 0;
    while i < targets.len()
        invariant
            0 <= i <= targets.len(),
            paths@ == target_paths(targets@).take(i as int),
        decreases targets.len() - i,
    {
        paths.push(targets[i].workflow_path.clone());
        proof {
            assert(paths@ =~= target_paths(targets@).take(i as int + 1));
        }
        i += 1;
    }
    proof {
        assert(paths@ =~= target_paths(targets@));
    }
    let files = crate::discovery::sorted_unique_paths(&paths);
    let mut out: Vec<(String, Vec<ApplyTarget>)> = Vec::new();
    let mut k: usize = 0;
    while k < files.len()
        invariant
            0 <= k <= files.len(),
            out@.map_values(|g: (String, Vec<ApplyTarget>)| g.0@) == crate::discovery::views(files@).take(k as int),
            forall|j: int| 0 <= j < out@.len() ==> (#[trigger] out@[j]).1@ == targets_in_file(targets@, out@[j].0@),
        decreases files.len() - k,
    {
        let file = files[k].clone();
        let parts = crate::discovery::path_parts(file.as_str());
        let mut mine: Vec<ApplyTarget> = Vec::new();
        let mut j: usize = 0;
        while j < targets.len()
            invariant
                0 <= j <= targets.len(),
                crate::discovery::parts_view(parts@) == crate::discovery::path_comps(file@),
                crate::discovery::parts_ok(parts@),
                mine@ == targets_in_file(targets@.take(j as int), file@),
            decreases targets.len() - j,
        {
            proof {
                assert(targets@.take(j as int + 1).drop_last() == targets@.take(j as int));
            }
            let other = crate::discovery::path_parts(targets[j].workflow_path.as_str());
            if crate::discovery::parts_same(&other, &parts) {
                mine.push(targets[j].clone_target());
            }
            j += 1;
        }
        proof {
            assert(targets@.take(targets@.len() as int) == targets@);
        }
        let ghost before = out@;
        out.push((file, mine));
        proof {
            assert(out@.map_values(|g: (String, Vec<ApplyTarget>)| g.0@) =~= before.map_values(
                |g: (String, Vec<ApplyTarget>)| g.0@,
            ).push(files@[k as int]@));
            assert(crate::discovery::views(files@).take(k as int + 1) =~= crate::discovery::views(files@).take(
                k as int,
            ).push(files@[k as int]@));
        }
        k += 1;
    }
    proof {
        assert(crate::discovery::views(files@).take(files@.len() as int) =~= crate::discovery::views(files@));
    }
    out
}


/// Whether every planned pin of the report can be shortened for display,
/// which the labels and the apply step need.
pub fn report_labels_fit(report: &ScanReport) -> (r: bool)
    ensures
        r == labels_ok(report.workflows@),
{
    let ws = &report.workflows;
    let mut w: usize = 0;
    while w < ws.len()
        invariant
            0 <= w <= ws.len(),
            ws@ == report.workflows@,
            forall|a: int, i: int|
                0 <= a < w && 0 <= i < ws@[a].references@.len() && (#[trigger] ws@[a].references@[i]).planned is Some
                    ==> short_pin_ok(ws@[a].references@[i].planned->0.from_ref@) && short_pin_ok(
                    ws@[a].references@[i].planned->0.to_ref@,
                ),
        decreases ws.len() - w,
    {
        let refs = &ws[w].references;
        let mut i: usize = 0;
        while i < refs.len()
            invariant
                0 <= i <= refs.len(),
                0 <= w < ws.len(),
                ws@ == report.workflows@,
                refs@ == ws@[w as int].references@,
                forall|a: int, j: int|
                    0 <= a < w && 0 <= j < ws@[a].references@.len() && (#[trigger] ws@[a].references@[j]).planned is Some
                        ==> short_pin_ok(ws@[a].references@[j].planned->0.from_ref@) && short_pin_ok(
                        ws@[a].references@[j].planned->0.to_ref@,
                    ),
                forall|j: int|
                    0 <= j < i && (#[trigger] refs@[j]).planned is Some ==> short_pin_ok(
                        refs@[j].planned->0.from_ref@,
                    ) && short_pin_ok(refs@[j].planned->0.to_ref@),
            decreases refs.len() - i,
        {
            match &refs[i].planned {
                Some(p) => {
                    if !super::display::short_pin_fits(p.from_ref.as_str())
                        || !super::display::short_pin_fits(p.to_ref.as_str()) {
                        proof {
                            assert(ws@[w as int].references@[i as int] == refs@[i as int]);
                        }
                        return false;
                    }
                },
                None => {},
            }
            i += 1;
        }
        proof {
            assert forall|a: int, j: int|
                0 <= a < w + 1 && 0 <= j < ws@[a].references@.len() && (#[trigger] ws@[a].references@[j]).planned is Some
                    implies short_pin_ok(ws@[a].references@[j].planned->0.from_ref@) && short_pin_ok(
                    ws@[a].references@[j].planned->0.to_ref@,
                ) by {
                if a == w {
                    assert(ws@[a].references@[j] == refs@[j]);
                }
            }
        }
        w += 1;
    }
    true
}

/// Each target of a file ends up either applied or failed, never both and
/// never neither.
pub proof fn lemma_apply_all_counts(
    ws: Seq<WorkflowReport>,
    path: Seq<char>,
    ts: Seq<ApplyTarget>,
    lines: Seq<Seq<char>>,
    mode: PinMode,
)
    ensures
        spec_apply_all(ws, path, ts, lines, mode).1.len() + spec_apply_all(ws, path, ts, lines, mode).2.len()
            == ts.len(),
    decreases ts.len(),
{
    if ts.len() > 0 {
        lemma_apply_all_counts(ws, path, ts.drop_last(), lines, mode);
    }
}

/// One file's share of an apply, before anything is written: the changes
/// and the failures, and the lines to write back (with whether the file
/// ends in a line break) when something applied and this is no dry run.
pub struct FileStep {
    pub applied: Vec<AppliedChange>,
    pub failures: Vec<ApplyFailure>,
    pub write: Option<(Vec<String>, bool)>,
}

/// Applies the targets of one file, given its content or the text of the
/// error that kept it from being read; an unreadable file fails all of its
/// targets with that text.
pub fn file_step(
    report: &ScanReport,
    workflow_path: &str,
    targets: &[ApplyTarget],
    content: Result<String, String>,
    config: &ActioneerConfig,
    dry_run: bool,
) -> (r: FileStep)
    requires
        labels_ok(report.workflows@),
    ensures
        r.applied@.len() + r.failures@.len() == targets@.len(),
        content is Err ==> r.applied@.len() == 0 && r.write is None,
        content matches Err(m) ==> forall|k: int|
            0 <= k < r.failures@.len() ==> (#[trigger] r.failures@[k]).message@ == m@,
        content matches Ok(c) ==> ({
            let (after, fails, applied) = spec_apply_all(
                report.workflows@,
                workflow_path@,
                targets@,
                spec_lines(c@),
                config.pin,
            );
            &&& failure_views(r.failures@) == fails
            &&& applied_lines(r.applied@) == applied
            &&& (r.write matches Some((ls, nl)) ==> line_views(ls@) == after && nl == (c@.len() > 0
                && c@.last() == '\n'))
            &&& (r.write is Some <==> (!dry_run && applied.len() > 0))
        }),
{
    match content {
        Err(m) => FileStep { applied: Vec::new(), failures: fail_all(targets, m.as_str()), write: None },
        Ok(c) => {
            let (mut lines, nl) = content_lines(c.as_str());
            let (applied, failures) = apply_file_lines(report, workflow_path, targets, &mut lines, config);
            proof {
                lemma_apply_all_counts(report.workflows@, workflow_path@, targets@, spec_lines(c@), config.pin);
            }
            let write = if !dry_run && applied.len() > 0 {
                Some((lines, nl))
            } else {
                None
            };
            FileStep { applied, failures, write }
        },
    }
}

/// A file's outcome once its lines were written back (`written` is the
/// write's result, `Ok` when nothing had to be written): its changes and
/// failures, or, when the write failed, a failure for every target.
pub fn file_outcome(step: FileStep, targets: &[ApplyTarget], written: Result<(), String>) -> (r: (
    Vec<AppliedChange>,
    Vec<ApplyFailure>,
))
    requires
        step.applied@.len() + step.failures@.len() == targets@.len(),
    ensures
        r.0@.len() + r.1@.len() == targets@.len(),
        written is Ok ==> r.0 == step.applied && r.1 == step.failures,
        written matches Err(m) ==> r.0@.len() == 0 && forall|k: int|
            0 <= k < r.1@.len() ==> (#[trigger] r.1@[k]).message@ == m@ && r.1@[k].line
                == targets@[k].line && r.1@[k].workflow_path == targets@[k].workflow_path,
{
    match written {
        Ok(()) => (step.applied, step.failures),
        Err(m) => (Vec::new(), fail_all(targets, m.as_str())),
    }
}

/// Adds one file's outcome to the report: its changes after those already
/// there, and its failures after theirs.
pub fn add_outcome(report: &mut ApplyReport, applied: Vec<AppliedChange>, failures: Vec<ApplyFailure>)
    ensures
        final(report).applied@ == old(report).applied@ + applied@,
        final(report).failures@ == old(report).failures@ + failures@,
{
    let mut applied = applied;
    let mut failures = failures;
    report.applied.append(&mut applied);
    report.failures.append(&mut failures);
}

} // verus!
