//! What the update command prints after applying.
use vstd::prelude::*;

use crate::ansi::{Colors, painted};
use crate::paths::{file_name, spec_file_name};
use crate::render::{dec_string, push_decimal};
use crate::config::ActioneerConfig;
use crate::scan::apply::labels_ok;
use crate::scan::display::{plan_from_label, plan_to_label, spec_plan_from_label, spec_plan_to_label};
use crate::scan::types::{derefs_pairs, flat_planned};
use crate::scan::{AppliedChange, ApplyFailure, ApplyReport, ReferenceReport, ScanReport};
use crate::text::push_str;

verus! {

/// The file name of a workflow path, or `?` when it has none.
pub open spec fn shown_name(path: Seq<char>) -> Seq<char> {
    match spec_file_name(path) {
        Some(n) => n,
        None => "?"@,
    }
}

/// `name:line` for a change or a failure.
pub open spec fn location(path: Seq<char>, line: u32) -> Seq<char> {
    shown_name(path) + ":"@ + dec_string(line as nat)
}

pub open spec fn change_line(on: bool, c: AppliedChange) -> Seq<char> {
    "  "@ + painted(on, "36"@, location(c.workflow_path@, c.line)) + "  "@ + painted(on, "33"@, c.action@)
        + "  "@ + painted(on, "90"@, c.from@) + " "@ + painted(on, "2"@, "→"@) + " "@ + painted(
        on,
        "32"@,
        c.to@,
    ) + "\n"@
}

pub open spec fn failure_line(on: bool, f: ApplyFailure) -> Seq<char> {
    "  "@ + painted(on, "36"@, location(f.workflow_path@, f.line)) + "  "@ + painted(
        on,
        "31"@,
        f.message@,
    ) + "\n"@
}

pub open spec fn change_lines(on: bool, cs: Seq<AppliedChange>) -> Seq<char>
    decreases cs.len(),
{
    if cs.len() == 0 {
        Seq::empty()
    } else {
        change_lines(on, cs.drop_last()) + change_line(on, cs.last())
    }
}

pub open spec fn failure_lines(on: bool, fs: Seq<ApplyFailure>) -> Seq<char>
    decreases fs.len(),
{
    if fs.len() == 0 {
        Seq::empty()
    } else {
        failure_lines(on, fs.drop_last()) + failure_line(on, fs.last())
    }
}

/// The plain-text summary of an apply: a dry-run banner; nothing to apply;
/// the applied changes; the failures.
pub open spec fn spec_apply_plain(r: ApplyReport, dry_run: bool, on: bool) -> Seq<char> {
    let banner = if dry_run {
        painted(on, "33"@, "Dry run — no files modified."@) + "\n\n"@
    } else {
        Seq::empty()
    };
    if r.applied@.len() == 0 && r.failures@.len() == 0 {
        banner + painted(on, "2"@, "No updates to apply."@) + "\n"@
    } else {
        let applied = if r.applied@.len() > 0 {
            painted(on, "1"@, if dry_run {
                "Would apply"@
            } else {
                "Applied"@
            }) + " "@ + dec_string(r.applied@.len()) + " update(s):\n\n"@ + change_lines(
                on,
                r.applied@,
            )
        } else {
            Seq::empty()
        };
        let failed = if r.failures@.len() > 0 {
            "\n"@ + painted(on, "31"@, dec_string(r.failures@.len()) + " update(s) failed:"@) + "\n"@
                + failure_lines(on, r.failures@)
        } else {
            Seq::empty()
        };
        banner + applied + failed
    }
}

fn location_text(path: &str, line: u32) -> (r: String)
    ensures
        r@ == location(path@, line),
{
    proof {
        reveal_strlit("?");
        reveal_strlit(":");
    }
    let mut s = match file_name(path) {
        Some(n) => n,
        None => "?".to_string(),
    };
    push_str(&mut s, ":");
    push_decimal(&mut s, line as u64);
    s
}

fn push_change_line(out: &mut String, c: Colors, change: &AppliedChange)
    ensures
        final(out)@ == old(out)@ + change_line(c.enabled, *change),
{
    proof {
        reveal_strlit("  ");
        reveal_strlit(" ");
        reveal_strlit("\n");
        reveal_strlit("→");
    }
    let loc = location_text(change.workflow_path.as_str(), change.line);
    let s1 = c.workflow(loc.as_str());
    let s2 = c.action(change.action.as_str());
    let s3 = c.from(change.from.as_str());
    let s4 = c.dim("→");
    let s5 = c.to(change.to.as_str());
    let mut line = String::new();
    push_str(&mut line, "  ");
    push_str(&mut line, s1.as_str());
    push_str(&mut line, "  ");
    push_str(&mut line, s2.as_str());
    push_str(&mut line, "  ");
    push_str(&mut line, s3.as_str());
    push_str(&mut line, " ");
    push_str(&mut line, s4.as_str());
    push_str(&mut line, " ");
    push_str(&mut line, s5.as_str());
    push_str(&mut line, "\n");
    assert(line@ =~= change_line(c.enabled, *change));
    push_str(out, line.as_str());
}

fn push_failure_line(out: &mut String, c: Colors, failure: &ApplyFailure)
    ensures
        final(out)@ == old(out)@ + failure_line(c.enabled, *failure),
{
    proof {
        reveal_strlit("  ");
        reveal_strlit("\n");
    }
    let loc = location_text(failure.workflow_path.as_str(), failure.line);
    let s1 = c.workflow(loc.as_str());
    let s2 = c.error(failure.message.as_str());
    let mut line = String::new();
    push_str(&mut line, "  ");
    push_str(&mut line, s1.as_str());
    push_str(&mut line, "  ");
    push_str(&mut line, s2.as_str());
    push_str(&mut line, "\n");
    assert(line@ =~= failure_line(c.enabled, *failure));
    push_str(out, line.as_str());
}

fn applied_section(report: &ApplyReport, dry_run: bool, c: Colors) -> (r: String)
    requires
        report.applied@.len() <= u64::MAX,
        report.applied@.len() > 0,
    ensures
        r@ == painted(c.enabled, "1"@, if dry_run {
            "Would apply"@
        } else {
            "Applied"@
        }) + " "@ + dec_string(report.applied@.len()) + " update(s):\n\n"@ + change_lines(
            c.enabled,
            report.applied@,
        ),
{
    proof {
        reveal_strlit("Would apply");
        reveal_strlit("Applied");
        reveal_strlit(" ");
        reveal_strlit(" update(s):\n\n");
    }
    let verb = if dry_run {
        "Would apply"
    } else {
        "Applied"
    };
    let mut out = c.bold(verb);
    push_str(&mut out, " ");
    push_decimal(&mut out, report.applied.len() as u64);
    push_str(&mut out, " update(s):\n\n");
    let ghost head = out@;
    let mut i: usize = 0;
    while i < report.applied.len()
        invariant
            0 <= i <= report.applied.len(),
            out@ == head + change_lines(c.enabled, report.applied@.take(i as int)),
        decreases report.applied.len() - i,
    {
        proof {
            assert(report.applied@.take(i as int + 1).drop_last() == report.applied@.take(i as int));
        }
        push_change_line(&mut out, c, &report.applied[i]);
        i += 1;
    }
    proof {
        assert(report.applied@.take(report.applied@.len() as int) == report.applied@);
    }
    out
}

fn failed_section(report: &ApplyReport, c: Colors) -> (r: String)
    requires
        report.failures@.len() <= u64::MAX,
        report.failures@.len() > 0,
    ensures
        r@ == "\n"@ + painted(c.enabled, "31"@, dec_string(report.failures@.len()) + " update(s) failed:"@)
            + "\n"@ + failure_lines(c.enabled, report.failures@),
{
    proof {
        reveal_strlit("\n");
        reveal_strlit(" update(s) failed:");
    }
    let mut title = String::new();
    push_decimal(&mut title, report.failures.len() as u64);
    push_str(&mut title, " update(s) failed:");
    let e = c.error(title.as_str());
    let mut out = String::new();
    push_str(&mut out, "\n");
    push_str(&mut out, e.as_str());
    push_str(&mut out, "\n");
    let ghost head = out@;
    let mut i: usize = 0;
    while i < report.failures.len()
        invariant
            0 <= i <= report.failures.len(),
            out@ == head + failure_lines(c.enabled, report.failures@.take(i as int)),
        decreases report.failures.len() - i,
    {
        proof {
            assert(report.failures@.take(i as int + 1).drop_last() == report.failures@.take(i as int));
        }
        push_failure_line(&mut out, c, &report.failures[i]);
        i += 1;
    }
    proof {
        assert(report.failures@.take(report.failures@.len() as int) == report.failures@);
    }
    out
}

/// The plain-text summary of an apply, as the update command prints it
/// (colours when `c` has them on).
pub fn apply_plain_text(report: &ApplyReport, dry_run: bool, c: Colors) -> (r: String)
    requires
        report.applied@.len() <= u64::MAX,
        report.failures@.len() <= u64::MAX,
    ensures
        r@ == spec_apply_plain(*report, dry_run, c.enabled),
{
    proof {
        reveal_strlit("Dry run — no files modified.");
        reveal_strlit("\n");
        reveal_strlit("\n\n");
        reveal_strlit("No updates to apply.");
    }
    let mut out = String::new();
    if dry_run {
        let w = c.warn("Dry run — no files modified.");
        push_str(&mut out, w.as_str());
        push_str(&mut out, "\n\n");
    }
    if report.applied.len() == 0 && report.failures.len() == 0 {
        let d = c.dim("No updates to apply.");
        push_str(&mut out, d.as_str());
        push_str(&mut out, "\n");
        return out;
    }
    let ghost banner = out@;
    if report.applied.len() > 0 {
        let a = applied_section(report, dry_run, c);
        push_str(&mut out, a.as_str());
    }
    let ghost mid = out@;
    if report.failures.len() > 0 {
        let f = failed_section(report, c);
        push_str(&mut out, f.as_str());
    }
    proof {
        assert(mid =~= banner + (if report.applied@.len() > 0 {
            painted(c.enabled, "1"@, if dry_run {
                "Would apply"@
            } else {
                "Applied"@
            }) + " "@ + dec_string(report.applied@.len()) + " update(s):\n\n"@ + change_lines(
                c.enabled,
                report.applied@,
            )
        } else {
            Seq::empty()
        }));
    }
    out
}

/// `s` padded with spaces to `width` characters (as `{:<width}` does).
pub open spec fn pad(s: Seq<char>, width: int) -> Seq<char> {
    if s.len() < width {
        s + Seq::new((width - s.len()) as nat, |i: int| ' ')
    } else {
        s
    }
}

pub(crate) fn push_padded(out: &mut String, s: &str, width: usize)
    ensures
        final(out)@ == old(out)@ + pad(s@, width as int),
{
    push_str(out, s);
    let n = crate::text::chars_of(s).len();
    let ghost base = out@;
    if n < width {
        let mut k: usize = n;
        while k < width
            invariant
                n <= k <= width,
                out@ == base + Seq::new((k - n) as nat, |i: int| ' '),
            decreases width - k,
        {
            out.push(' ');
            proof {
                assert(out@ =~= base + Seq::new((k + 1 - n) as nat, |i: int| ' '));
            }
            k += 1;
        }
    } else {
        assert(out@ =~= base + Seq::<char>::empty());
    }
    proof {
        assert(base == old(out)@ + s@);
    }
}

/// The table row of one planned change: workflow file name, action, from and to.
pub open spec fn plan_row(path: Seq<char>, r: ReferenceReport, mode: crate::config::PinMode) -> Seq<char> {
    pad(shown_name(path), 40) + " "@ + pad(r.resolved.located.reference.raw@, 35) + " "@ + pad(
        spec_plan_from_label(r.resolved.located.reference.pin_kind, r.planned->0),
        28,
    ) + " "@ + spec_plan_to_label(r.planned->0, mode) + "\n"@
}

pub open spec fn plan_rows(ps: Seq<(String, ReferenceReport)>, mode: crate::config::PinMode) -> Seq<char>
    decreases ps.len(),
{
    if ps.len() == 0 {
        Seq::empty()
    } else {
        plan_rows(ps.drop_last(), mode) + plan_row(ps.last().0@, ps.last().1, mode)
    }
}

pub open spec fn blocked_note(blocked: usize) -> Seq<char> {
    dec_string(blocked as nat) + " reference(s) blocked by audit rules.\n"@
}

/// The plain-text plan: no plan with the scan's counts, or the table of
/// planned updates, and the number of blocked references when there are any.
pub open spec fn spec_plan_plain(r: ScanReport, mode: crate::config::PinMode) -> Seq<char> {
    let ps = flat_planned(r.workflows@);
    if ps.len() == 0 {
        "No updates planned.\n"@ + "Scanned "@ + dec_string(r.stats.workflows as nat) + " workflow(s), "@
            + dec_string(r.stats.references as nat) + " reference(s).\n"@ + if r.stats.blocked > 0 {
            blocked_note(r.stats.blocked)
        } else {
            Seq::empty()
        }
    } else {
        dec_string(r.stats.planned as nat) + " planned update(s) across "@ + dec_string(
            r.stats.workflows as nat,
        ) + " workflow(s)\n\n"@ + pad("Workflow"@, 40) + " "@ + pad("Action"@, 35) + " "@ + pad(
            "From"@,
            28,
        ) + " "@ + "To"@ + "\n"@ + Seq::new(115, |i: int| '-') + "\n"@ + plan_rows(ps, mode)
            + if r.stats.blocked > 0 {
            "\n"@ + blocked_note(r.stats.blocked)
        } else {
            Seq::empty()
        }
    }
}

fn push_plan_row(out: &mut String, path: &str, reference: &ReferenceReport, config: &ActioneerConfig)
    requires
        reference.planned matches Some(p) && crate::scan::display::short_pin_ok(p.from_ref@)
            && crate::scan::display::short_pin_ok(p.to_ref@),
    ensures
        final(out)@ == old(out)@ + plan_row(path@, *reference, config.pin),
{
    proof {
        reveal_strlit("?");
        reveal_strlit(" ");
        reveal_strlit("\n");
    }
    let planned = match &reference.planned {
        Some(p) => p,
        None => {
            assert(false);
            return ;
        },
    };
    let name = match file_name(path) {
        Some(n) => n,
        None => "?".to_string(),
    };
    let from = plan_from_label(&reference.resolved, planned);
    let to = plan_to_label(planned, config.pin);
    let mut line = String::new();
    push_padded(&mut line, name.as_str(), 40);
    push_str(&mut line, " ");
    push_padded(&mut line, reference.resolved.located.reference.raw.as_str(), 35);
    push_str(&mut line, " ");
    push_padded(&mut line, from.as_str(), 28);
    push_str(&mut line, " ");
    push_str(&mut line, to.as_str());
    push_str(&mut line, "\n");
    assert(line@ =~= plan_row(path@, *reference, config.pin));
    push_str(out, line.as_str());
}

/// The plain-text plan, as the update command prints it.
pub fn plan_plain_text(report: &ScanReport, config: &ActioneerConfig) -> (r: String)
    requires
        labels_ok(report.workflows@),
    ensures
        r@ == spec_plan_plain(*report, config.pin),
{
    proof {
        reveal_strlit("No updates planned.\n");
        reveal_strlit("Scanned ");
        reveal_strlit(" workflow(s), ");
        reveal_strlit(" reference(s).\n");
        reveal_strlit(" reference(s) blocked by audit rules.\n");
        reveal_strlit(" planned update(s) across ");
        reveal_strlit(" workflow(s)\n\n");
        reveal_strlit("Workflow");
        reveal_strlit("Action");
        reveal_strlit("From");
        reveal_strlit("To");
        reveal_strlit(" ");
        reveal_strlit("\n");
    }
    let changes = report.planned_changes();
    let ghost ps = derefs_pairs(changes@);
    let mut out = String::new();
    if changes.len() == 0 {
        push_str(&mut out, "No updates planned.\n");
        push_str(&mut out, "Scanned ");
        push_decimal(&mut out, report.stats.workflows as u64);
        push_str(&mut out, " workflow(s), ");
        push_decimal(&mut out, report.stats.references as u64);
        push_str(&mut out, " reference(s).\n");
        if report.stats.blocked > 0 {
            push_decimal(&mut out, report.stats.blocked as u64);
            push_str(&mut out, " reference(s) blocked by audit rules.\n");
        }
        return out;
    }
    push_decimal(&mut out, report.stats.planned as u64);
    push_str(&mut out, " planned update(s) across ");
    push_decimal(&mut out, report.stats.workflows as u64);
    push_str(&mut out, " workflow(s)\n\n");
    push_padded(&mut out, "Workflow", 40);
    push_str(&mut out, " ");
    push_padded(&mut out, "Action", 35);
    push_str(&mut out, " ");
    push_padded(&mut out, "From", 28);
    push_str(&mut out, " ");
    push_str(&mut out, "To");
    push_str(&mut out, "\n");
    let ghost before_rule = out@;
    let mut k: usize = 0;
    while k < 115
        invariant
            0 <= k <= 115,
            out@ == before_rule + Seq::new(k as nat, |i: int| '-'),
        decreases 115 - k,
    {
        out.push('-');
        proof {
            assert(out@ =~= before_rule + Seq::new((k + 1) as nat, |i: int| '-'));
        }
        k += 1;
    }
    push_str(&mut out, "\n");
    let ghost head = out@;
    let mut i: usize = 0;
    while i < changes.len()
        invariant
            0 <= i <= changes.len(),
            ps == derefs_pairs(changes@),
            ps == flat_planned(report.workflows@),
            labels_ok(report.workflows@),
            out@ == head + plan_rows(ps.take(i as int), config.pin),
        decreases changes.len() - i,
    {
        let (path, reference) = changes[i];
        proof {
            assert(ps.take(i as int + 1).drop_last() == ps.take(i as int));
            assert(ps[i as int] == (*path, *reference));
            crate::scan::types::lemma_flat_planned_member(report.workflows@, i as int);
            let (w, j) = choose|w: int, j: int|
                0 <= w < report.workflows@.len() && 0 <= j < report.workflows@[w].references@.len()
                    && ps[i as int] == (report.workflows@[w].path, report.workflows@[w].references@[j])
                    && (#[trigger] report.workflows@[w].references@[j]).planned is Some;
            assert(report.workflows@[w].references@[j] == *reference);
        }
        push_plan_row(&mut out, path.as_str(), reference, config);
        i += 1;
    }
    proof {
        assert(ps.take(ps.len() as int) == ps);
    }
    if report.stats.blocked > 0 {
        push_str(&mut out, "\n");
        push_decimal(&mut out, report.stats.blocked as u64);
        push_str(&mut out, " reference(s) blocked by audit rules.\n");
    }
    out
}

} // verus!
