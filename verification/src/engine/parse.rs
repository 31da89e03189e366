//! Reference extraction from a deserialized workflow, and the line-number scan.
//!
//! The YAML text is deserialized into [`RawWorkflow`] elsewhere; this module turns
//! that structure into [`WorkflowDocument`] and locates each `uses:` line.
use vstd::prelude::*;

use super::reference::{parse_uses, spec_parse_uses, sv, UsesParts};
use super::uses_line::{spec_value_and_comment, parse_value_and_comment};
use super::{ActionReference, PinKind, ReferenceKind, WorkflowDocument};
use crate::text::{
    chars_of, find_from, has_prefix, lit, slice_vec, spec_lines, split_lines, starts_with,
    string_of, trim, trim_start, trim_start_vec, trim_vec,
};

verus! {

/// A workflow as deserialized from YAML: its name and its jobs in source order.
#[derive(Debug, Clone)]
pub struct RawWorkflow {
    pub name: Option<String>,
    pub jobs: Vec<(String, RawJob)>,
}

/// One job of a workflow.
#[derive(Debug, Clone)]
pub struct RawJob {
    pub name: Option<String>,
    /// Job-level reusable-workflow call (`jobs.<id>.uses`).
    pub uses: Option<String>,
    pub steps: Vec<RawStep>,
}

/// One step of a job.
#[derive(Debug, Clone)]
pub struct RawStep {
    pub name: Option<String>,
    pub uses: Option<String>,
}

/// An [`ActionReference`], as values.
pub ghost struct RefView {
    pub raw: Seq<char>,
    pub parts: UsesParts,
    pub step_name: Option<Seq<char>>,
    pub job_id: Seq<char>,
    pub job_name: Option<Seq<char>>,
    pub step_index: Option<usize>,
    pub line: Option<u32>,
    pub line_comment: Option<Seq<char>>,
}

pub open spec fn ref_view(r: ActionReference) -> RefView {
    RefView {
        raw: r.raw@,
        parts: UsesParts {
            kind: r.kind,
            pin_kind: r.pin_kind,
            owner: sv(r.owner),
            repo: sv(r.repo),
            subpath: sv(r.subpath),
            git_ref: sv(r.git_ref),
        },
        step_name: sv(r.step_name),
        job_id: r.job_id@,
        job_name: sv(r.job_name),
        step_index: r.step_index,
        line: r.line,
        line_comment: sv(r.line_comment),
    }
}

pub open spec fn views(rs: Seq<ActionReference>) -> Seq<RefView> {
    rs.map_values(|r: ActionReference| ref_view(r))
}

/// A reference freshly read from a `uses:` value, before its line is located.
pub open spec fn new_ref(
    raw: Seq<char>,
    step_name: Option<Seq<char>>,
    job_id: Seq<char>,
    job_name: Option<Seq<char>>,
    step_index: Option<usize>,
) -> RefView {
    RefView {
        raw,
        parts: spec_parse_uses(raw),
        step_name,
        job_id,
        job_name,
        step_index,
        line: None,
        line_comment: None,
    }
}

/// References of `steps[k..]` in order.
pub open spec fn step_refs(job_id: Seq<char>, job_name: Option<Seq<char>>, steps: Seq<RawStep>, k: int) -> Seq<
    RefView,
>
    decreases steps.len() - k,
{
    if k < 0 || k >= steps.len() {
        Seq::empty()
    } else {
        (match steps[k].uses {
            Some(u) => seq![new_ref(u@, sv(steps[k].name), job_id, job_name, Some(k as usize))],
            None => Seq::empty(),
        }) + step_refs(job_id, job_name, steps, k + 1)
    }
}

/// References of one job: the job-level call first, then its steps.
pub open spec fn job_refs(job_id: Seq<char>, job: RawJob) -> Seq<RefView> {
    (match job.uses {
        Some(u) => seq![new_ref(u@, None, job_id, sv(job.name), None)],
        None => Seq::empty(),
    }) + step_refs(job_id, sv(job.name), job.steps@, 0)
}

/// References of `jobs[k..]` in order.
pub open spec fn jobs_refs(jobs: Seq<(String, RawJob)>, k: int) -> Seq<RefView>
    decreases jobs.len() - k,
{
    if k < 0 || k >= jobs.len() {
        Seq::empty()
    } else {
        job_refs(jobs[k].0@, jobs[k].1) + jobs_refs(jobs, k + 1)
    }
}

/// The value and comment of a source line holding a `uses:` key.
pub open spec fn uses_line_value(line: Seq<char>) -> Option<(Seq<char>, Option<Seq<char>>)> {
    let t = trim(line);
    let u = if starts_with(t, "- "@) {
        trim_start(t.skip(2))
    } else {
        t
    };
    if starts_with(u, "uses:"@) {
        Some(spec_value_and_comment(u.skip(5)))
    } else {
        None
    }
}

pub open spec fn line_has_raw(raw: Seq<char>) -> spec_fn(Seq<char>) -> bool {
    |l: Seq<char>| uses_line_value(l) matches Some((v, _)) && v == raw
}

/// Index of the first line at or after `cursor` whose `uses:` value is `raw`.
pub open spec fn locate(lines: Seq<Seq<char>>, raw: Seq<char>, cursor: int) -> Option<int> {
    find_from(lines, line_has_raw(raw), cursor)
}

/// Where the scan for reference `i` starts: just after the line found for
/// the previous reference, or past the end once one was not found.
pub open spec fn cursor_at(lines: Seq<Seq<char>>, refs: Seq<RefView>, i: int) -> int
    decreases i,
{
    if i <= 0 {
        0
    } else {
        match locate(lines, refs[i - 1].raw, cursor_at(lines, refs, i - 1)) {
            Some(j) => j + 1,
            None => lines.len() as int,
        }
    }
}

/// Reference `r` with the line and comment of its `uses:` line, when found.
pub open spec fn located(lines: Seq<Seq<char>>, r: RefView, cursor: int) -> RefView {
    match locate(lines, r.raw, cursor) {
        Some(j) => RefView {
            line: Some((j + 1) as u32),
            line_comment: uses_line_value(lines[j]).unwrap().1,
            ..r
        },
        None => r,
    }
}

/// Split the value portion of a `uses:` line into the action ref and an optional comment.
pub fn extract_uses_comment(rest: &str) -> (r: (String, Option<String>))
    ensures
        (r.0@, sv(r.1)) == spec_value_and_comment(rest@),
{
    parse_value_and_comment(rest)
}

fn uses_line_value_exec(line: &[char]) -> (r: Option<(String, Option<String>)>)
    ensures
        match r {
            Some((v, c)) => uses_line_value(line@) == Some((v@, sv(c))),
            None => uses_line_value(line@) is None,
        },
{
    let t = trim_vec(line);
    let u = if has_prefix(&t, &lit("- ")) {
        proof {
            reveal_strlit("- ");
        }
        let after = slice_vec(&t, 2, t.len());
        trim_start_vec(&after)
    } else {
        t
    };
    if has_prefix(&u, &lit("uses:")) {
        proof {
            reveal_strlit("uses:");
        }
        let rest = slice_vec(&u, 5, u.len());
        let s = string_of(&rest);
        Some(parse_value_and_comment(s.as_str()))
    } else {
        None
    }
}

fn copy_opt(o: &Option<String>) -> (r: Option<String>)
    ensures
        r == *o,
{
    match o {
        Some(s) => Some(s.clone()),
        None => None,
    }
}

fn make_ref(
    raw: &String,
    step_name: Option<String>,
    job_id: &String,
    job_name: Option<String>,
    step_index: Option<usize>,
) -> (r: ActionReference)
    ensures
        ref_view(r) == new_ref(raw@, sv(step_name), job_id@, sv(job_name), step_index),
{
    let p = parse_uses(raw.as_str());
    ActionReference {
        raw: raw.clone(),
        kind: p.kind,
        pin_kind: p.pin_kind,
        owner: p.owner,
        repo: p.repo,
        subpath: p.subpath,
        git_ref: p.git_ref,
        step_name,
        job_id: job_id.clone(),
        job_name,
        step_index,
        line: None,
        line_comment: None,
    }
}

/// Collect the references of all jobs, in document order.
fn collect(jobs: &Vec<(String, RawJob)>) -> (r: Vec<ActionReference>)
    ensures
        views(r@) == jobs_refs(jobs@, 0),
{
    let mut out: Vec<ActionReference> = Vec::new();
    let mut k: usize = 0;
    while k < jobs.len()
        invariant
            k <= jobs.len(),
            views(out@) + jobs_refs(jobs@, k as int) == jobs_refs(jobs@, 0),
        decreases jobs.len() - k,
    {
        let ghost before = out@;
        let job_id = &jobs[k].0;
        let job = &jobs[k].1;
        if let Some(u) = &job.uses {
            let r = make_ref(u, None, job_id, copy_opt(&job.name), None);
            out.push(r);
        }
        let ghost mid = out@;
        assert(views(mid) == views(before) + (match job.uses {
            Some(u) => seq![new_ref(u@, None, job_id@, sv(job.name), None)],
            None => Seq::empty(),
        })) by {
            assert(views(mid) =~= views(before) + (match job.uses {
                Some(u) => seq![new_ref(u@, None, job_id@, sv(job.name), None)],
                None => Seq::<RefView>::empty(),
            }));
        }
        let mut s: usize = 0;
        while s < job.steps.len()
            invariant
                s <= job.steps.len(),
                job == &jobs@[k as int].1,
                job_id == &jobs@[k as int].0,
                views(out@) + step_refs(job_id@, sv(job.name), job.steps@, s as int) == views(mid)
                    + step_refs(job_id@, sv(job.name), job.steps@, 0),
            decreases job.steps.len() - s,
        {
            let ghost b2 = out@;
            let step = &job.steps[s];
            if let Some(u) = &step.uses {
                let r = make_ref(u, copy_opt(&step.name), job_id, copy_opt(&job.name), Some(s));
                out.push(r);
            }
            proof {
                let piece = match &step.uses {
                    Some(u) => seq![new_ref(u@, sv(step.name), job_id@, sv(job.name), Some(s))],
                    None => Seq::<RefView>::empty(),
                };
                assert(views(out@) =~= views(b2) + piece);
                assert(step_refs(job_id@, sv(job.name), job.steps@, s as int) == piece + step_refs(
                    job_id@,
                    sv(job.name),
                    job.steps@,
                    s + 1,
                ));
                assert(views(out@) + step_refs(job_id@, sv(job.name), job.steps@, s + 1) =~= views(
                    b2,
                ) + step_refs(job_id@, sv(job.name), job.steps@, s as int));
            }
            s += 1;
        }
        proof {
            assert(step_refs(job_id@, sv(job.name), job.steps@, s as int) =~= Seq::<RefView>::empty());
            assert(jobs_refs(jobs@, k as int) == job_refs(jobs@[k as int].0@, jobs@[k as int].1)
                + jobs_refs(jobs@, k + 1));
            assert(views(out@) + jobs_refs(jobs@, k + 1) =~= views(before) + jobs_refs(
                jobs@,
                k as int,
            ));
        }
        k += 1;
    }
    proof {
        assert(jobs_refs(jobs@, k as int) =~= Seq::<RefView>::empty());
        assert(views(out@) =~= views(out@) + jobs_refs(jobs@, k as int));
    }
    out
}

/// Assign to each reference the 1-based line of its `uses:` key and the
/// trailing comment of that line, scanning forward through `content`.
pub fn assign_line_numbers(content: &str, refs: &mut Vec<ActionReference>)
    requires
        spec_lines(content@).len() < u32::MAX,
    ensures
        final(refs)@.len() == old(refs)@.len(),
        forall|i: int|
            0 <= i < old(refs)@.len() ==> ref_view(#[trigger] final(refs)@[i]) == located(
                spec_lines(content@),
                ref_view(old(refs)@[i]),
                cursor_at(spec_lines(content@), views(old(refs)@), i),
            ),
{
    let cs = chars_of(content);
    let lines = split_lines(&cs);
    let ghost ls = spec_lines(content@);
    let ghost before = views(refs@);
    assert(lines@.len() == ls.len());
    assert forall|j: int| 0 <= j < lines@.len() implies #[trigger] lines@[j]@ == ls[j] by {
        assert(lines@.map_values(|l: Vec<char>| l@)[j] == lines@[j]@);
    }
    let mut cursor: usize = 0;
    let mut i: usize = 0;
    while i < refs.len()
        invariant
            i <= refs.len(),
            refs@.len() == before.len(),
            before == views(old(refs)@),
            lines@.len() == ls.len(),
            ls == spec_lines(content@),
            ls.len() < u32::MAX,
            forall|j: int| 0 <= j < lines@.len() ==> #[trigger] lines@[j]@ == ls[j],
            cursor <= lines@.len(),
            cursor == cursor_at(ls, before, i as int),
            forall|j: int| i <= j < refs@.len() ==> refs@[j] == old(refs)@[j],
            forall|j: int|
                0 <= j < i ==> ref_view(#[trigger] refs@[j]) == located(
                    ls,
                    before[j],
                    cursor_at(ls, before, j),
                ),
        decreases refs.len() - i,
    {
        let ghost raw = refs@[i as int].raw@;
        assert(before[i as int].raw == raw);
        let ghost c0 = cursor as int;
        let mut found: Option<(usize, Option<String>)> = None;
        while cursor < lines.len()
            invariant_except_break
                found is None,
                locate(ls, raw, c0) == locate(ls, raw, cursor as int),
            invariant
                c0 <= cursor <= lines@.len(),
                i < refs.len(),
                lines@.len() == ls.len(),
                forall|j: int| 0 <= j < lines@.len() ==> #[trigger] lines@[j]@ == ls[j],
                raw == refs@[i as int].raw@,
            ensures
                match found {
                    Some((j, c)) => j == cursor && cursor < lines@.len() && locate(ls, raw, c0)
                        == Some(j as int) && sv(c) == uses_line_value(ls[j as int]).unwrap().1,
                    None => locate(ls, raw, c0) is None && cursor == lines@.len(),
                },
            decreases lines@.len() - cursor,
        {
            let v = uses_line_value_exec(&lines[cursor]);
            let hit = match &v {
                Some((val, _)) => crate::text::str_eq(val.as_str(), refs[i].raw.as_str()),
                None => false,
            };
            if hit {
                match v {
                    Some((_, c)) => {
                        found = Some((cursor, c));
                    },
                    None => {},
                }
                break;
            }
            cursor += 1;
        }
        match found {
            Some((j, c)) => {
                let mut r = refs[i].duplicate();
                r.line = Some((j + 1) as u32);
                r.line_comment = c;
                refs.set(i, r);
                cursor = j + 1;
            },
            None => {},
        }
        i += 1;
    }
}

/// The references read from `steps[k..]` carry no line yet.
proof fn lemma_step_refs_unlocated(
    job_id: Seq<char>,
    job_name: Option<Seq<char>>,
    steps: Seq<RawStep>,
    k: int,
)
    ensures
        forall|j: int|
            0 <= j < step_refs(job_id, job_name, steps, k).len() ==> (#[trigger] step_refs(
                job_id,
                job_name,
                steps,
                k,
            )[j]).line is None,
    decreases steps.len() - k,
{
    if 0 <= k < steps.len() {
        lemma_step_refs_unlocated(job_id, job_name, steps, k + 1);
        let head = match steps[k].uses {
            Some(u) => seq![new_ref(u@, sv(steps[k].name), job_id, job_name, Some(k as usize))],
            None => Seq::<RefView>::empty(),
        };
        let tail = step_refs(job_id, job_name, steps, k + 1);
        assert(step_refs(job_id, job_name, steps, k) == head + tail);
        assert forall|j: int| 0 <= j < (head + tail).len() implies (#[trigger] (head + tail)[j]).line
            is None by {
            if j >= head.len() {
                assert((head + tail)[j] == tail[j - head.len()]);
            }
        }
    }
}

/// The references read from `jobs[k..]` carry no line yet.
proof fn lemma_jobs_refs_unlocated(jobs: Seq<(String, RawJob)>, k: int)
    ensures
        forall|j: int|
            0 <= j < jobs_refs(jobs, k).len() ==> (#[trigger] jobs_refs(jobs, k)[j]).line is None,
    decreases jobs.len() - k,
{
    if 0 <= k < jobs.len() {
        lemma_jobs_refs_unlocated(jobs, k + 1);
        let job = jobs[k].1;
        let id = jobs[k].0@;
        lemma_step_refs_unlocated(id, sv(job.name), job.steps@, 0);
        let call = match job.uses {
            Some(u) => seq![new_ref(u@, None, id, sv(job.name), None)],
            None => Seq::<RefView>::empty(),
        };
        let steps = step_refs(id, sv(job.name), job.steps@, 0);
        let tail = jobs_refs(jobs, k + 1);
        assert(jobs_refs(jobs, k) == call + steps + tail);
        assert forall|j: int| 0 <= j < (call + steps + tail).len() implies (#[trigger] (call + steps
            + tail)[j]).line is None by {
            if j >= call.len() + steps.len() {
                assert((call + steps + tail)[j] == tail[j - call.len() - steps.len()]);
            } else if j >= call.len() {
                assert((call + steps + tail)[j] == steps[j - call.len()]);
            }
        }
    }
}

/// Build the document for a deserialized workflow whose source text is `content`.
/// References found on a `uses:` line get increasing lines in document order.
pub fn build_document(raw: RawWorkflow, content: &str) -> (doc: WorkflowDocument)
    requires
        spec_lines(content@).len() < u32::MAX,
    ensures
        doc.name == raw.name,
        doc.references@.len() == jobs_refs(raw.jobs@, 0).len(),
        forall|i: int|
            0 <= i < doc.references@.len() ==> ref_view(#[trigger] doc.references@[i]) == located(
                spec_lines(content@),
                jobs_refs(raw.jobs@, 0)[i],
                cursor_at(spec_lines(content@), jobs_refs(raw.jobs@, 0), i),
            ),
        forall|i: int, k: int|
            0 <= i < k < doc.references@.len() && (#[trigger] doc.references@[i]).line is Some && (
            #[trigger] doc.references@[k]).line is Some ==> doc.references@[i].line->0
                < doc.references@[k].line->0,
{
    let mut references = collect(&raw.jobs);
    assign_line_numbers(content, &mut references);
    let doc = WorkflowDocument { name: raw.name, references };
    proof {
        let ls = spec_lines(content@);
        let rs = jobs_refs(raw.jobs@, 0);
        lemma_jobs_refs_unlocated(raw.jobs@, 0);
        assert forall|i: int, k: int|
            0 <= i < k < doc.references@.len() && (#[trigger] doc.references@[i]).line is Some && (
            #[trigger] doc.references@[k]).line is Some implies doc.references@[i].line->0
            < doc.references@[k].line->0 by {
            assert(ref_view(doc.references@[i]) == located(ls, rs[i], cursor_at(ls, rs, i)));
            assert(ref_view(doc.references@[k]) == located(ls, rs[k], cursor_at(ls, rs, k)));
            crate::laws::law_found_lines_increase(ls, rs, i, k);
        }
    }
    doc
}

} // verus!
