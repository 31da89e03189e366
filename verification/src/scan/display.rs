//! Human-readable labels for planned updates.
//!
//! Lengths here are counted in UTF-8 bytes, and labels are cut at byte
//! offsets; a cut that would fall inside a character is left out by the
//! contracts.
use vstd::prelude::*;

use crate::config::PinMode;
use crate::engine::PinKind;
use crate::text::{blen, byte_len, char_boundary, chars_at_byte, chars_in_bytes, chars_of, push_str};

use super::types::{PlannedChange, ResolvedReference};

verus! {

/// A pin shortened for display: more than twelve bytes become the first
/// eleven bytes and an ellipsis.
pub open spec fn spec_short_pin(pin: Seq<char>) -> Seq<char> {
    if blen(pin) > 12 {
        pin.take(chars_at_byte(pin, 11)) + "…"@
    } else {
        pin
    }
}

/// A pin that [`spec_short_pin`] can cut: short, or with a character boundary at byte eleven.
pub open spec fn short_pin_ok(pin: Seq<char>) -> bool {
    blen(pin) <= usize::MAX && (blen(pin) > 12 ==> char_boundary(pin, 11))
}

fn short_pin(pin: &str) -> (r: String)
    requires
        short_pin_ok(pin@),
    ensures
        r@ == spec_short_pin(pin@),
{
    let cs = chars_of(pin);
    if byte_len(&cs) > 12 {
        match chars_in_bytes(&cs, 11) {
            Some(n) => {
                let mut out = crate::text::string_of_range(&cs, 0, n);
                push_str(&mut out, "…");
                proof {
                    reveal_strlit("…");
                }
                out
            },
            None => {
                assert(false);
                pin.to_string()
            },
        }
    } else {
        pin.to_string()
    }
}

/// The current-pin label: `version (short sha)` for SHA pins with a known
/// version, the short SHA otherwise; the version or the ref for tags; the ref
/// for branches and unpinned references.
pub open spec fn spec_plan_from_label(pin_kind: PinKind, p: PlannedChange) -> Seq<char> {
    match pin_kind {
        PinKind::FullSha | PinKind::ShortSha => match p.from_version {
            Some(v) => v@ + " ("@ + spec_short_pin(p.from_ref@) + ")"@,
            None => spec_short_pin(p.from_ref@),
        },
        PinKind::Tag => match p.from_version {
            Some(v) => v@,
            None => p.from_ref@,
        },
        PinKind::Branch | PinKind::Unpinned => p.from_ref@,
    }
}

/// Label for the current pin shown in tables and the TUI.
pub fn plan_from_label(resolved: &ResolvedReference, planned: &PlannedChange) -> (r: String)
    requires
        short_pin_ok(planned.from_ref@),
    ensures
        r@ == spec_plan_from_label(resolved.located.reference.pin_kind, *planned),
{
    proof {
        reveal_strlit(" (");
        reveal_strlit(")");
    }
    match resolved.located.reference.pin_kind {
        PinKind::FullSha | PinKind::ShortSha => {
            let sha = short_pin(planned.from_ref.as_str());
            match &planned.from_version {
                Some(version) => {
                    let mut out = version.clone();
                    push_str(&mut out, " (");
                    push_str(&mut out, sha.as_str());
                    push_str(&mut out, ")");
                    out
                },
                None => sha,
            }
        },
        PinKind::Tag => match &planned.from_version {
            Some(v) => v.clone(),
            None => planned.from_ref.clone(),
        },
        PinKind::Branch | PinKind::Unpinned => planned.from_ref.clone(),
    }
}

/// The target-pin label: the comment or the pin in tag mode; in SHA mode
/// `version (short sha)`, or the short SHA without a version.
pub open spec fn spec_plan_to_label(p: PlannedChange, mode: PinMode) -> Seq<char> {
    match mode {
        PinMode::Tag => match p.to_comment {
            Some(c) => c@,
            None => p.to_ref@,
        },
        PinMode::Sha => match p.to_comment {
            Some(v) => v@ + " ("@ + spec_short_pin(p.to_ref@) + ")"@,
            None => spec_short_pin(p.to_ref@),
        },
    }
}

/// Label for the target pin shown in tables and the TUI.
pub fn plan_to_label(planned: &PlannedChange, pin_mode: PinMode) -> (r: String)
    requires
        short_pin_ok(planned.to_ref@),
    ensures
        r@ == spec_plan_to_label(*planned, pin_mode),
{
    proof {
        reveal_strlit(" (");
        reveal_strlit(")");
    }
    match pin_mode {
        PinMode::Tag => match &planned.to_comment {
            Some(c) => c.clone(),
            None => planned.to_ref.clone(),
        },
        PinMode::Sha => {
            let sha = short_pin(planned.to_ref.as_str());
            match &planned.to_comment {
                Some(v) => {
                    let mut out = v.clone();
                    push_str(&mut out, " (");
                    push_str(&mut out, sha.as_str());
                    push_str(&mut out, ")");
                    out
                },
                None => sha,
            }
        },
    }
}

/// `a - b`, or zero when `b` exceeds `a`.
pub open spec fn sat_sub(a: int, b: int) -> int {
    if a >= b {
        a - b
    } else {
        0
    }
}

/// Whether the label is cut at the version before ` (`: the label is too
/// long, and the version with ` (…)` fits.
pub open spec fn keeps_version(label: Seq<char>, max: int) -> bool {
    &&& blen(label) > max
    &&& crate::text::first_occurrence(label, " ("@) is Some
    &&& blen(label.take(crate::text::first_occurrence(label, " ("@)->0)) + 4 <= max
}

/// A label that fits is kept; a longer one with ` (` keeps the part before it
/// and ` (…)` when that fits; otherwise it is cut to `max - 1` bytes and an
/// ellipsis.
pub open spec fn spec_truncate_label(label: Seq<char>, max: int) -> Seq<char> {
    if blen(label) <= max {
        label
    } else if keeps_version(label, max) {
        label.take(crate::text::first_occurrence(label, " ("@)->0) + " (…)"@
    } else {
        label.take(chars_at_byte(label, sat_sub(max, 1))) + "…"@
    }
}

#[verifier::rlimit(50)]
fn version_label(cs: &Vec<char>, max: usize) -> (r: Option<String>)
    requires
        blen(cs@) <= usize::MAX,
        blen(cs@) > max,
    ensures
        r is Some <==> keeps_version(cs@, max as int),
        r matches Some(s) ==> s@ == cs@.take(crate::text::first_occurrence(cs@, " ("@)->0) + " (…)"@,
{
    proof {
        reveal_strlit(" (");
        reveal_strlit(" (…)");
        crate::text::lemma_first_occurrence_bound(cs@, " ("@);
    }
    let pat = crate::text::lit(" (");
    match crate::text::find_seq(cs, &pat) {
        Some(paren) => {
            proof {
                assert(cs@ == cs@.take(paren as int) + cs@.skip(paren as int));
                crate::text::lemma_encode_utf8_append(cs@.take(paren as int), cs@.skip(paren as int));
            }
            let vlen = crate::text::utf8_len_prefix(cs, paren);
            if max >= 4 && vlen <= max - 4 {
                let mut out = crate::text::string_of_range(cs, 0, paren);
                push_str(&mut out, " (…)");
                Some(out)
            } else {
                None
            }
        },
        None => None,
    }
}

fn cut_label(cs: &Vec<char>, cut: usize) -> (r: String)
    requires
        blen(cs@) <= usize::MAX,
        char_boundary(cs@, cut as int),
    ensures
        r@ == cs@.take(chars_at_byte(cs@, cut as int)) + "…"@,
{
    proof {
        reveal_strlit("…");
    }
    match chars_in_bytes(cs, cut) {
        Some(n) => {
            let mut out = crate::text::string_of_range(cs, 0, n);
            push_str(&mut out, "…");
            out
        },
        None => {
            assert(false);
            String::new()
        },
    }
}

/// Truncate a display label for narrow columns, keeping the version when present.
pub fn truncate_label(label: &str, max: usize) -> (r: String)
    requires
        blen(label@) <= usize::MAX,
        blen(label@) > max && !keeps_version(label@, max as int) ==> char_boundary(
            label@,
            sat_sub(max as int, 1),
        ),
    ensures
        r@ == spec_truncate_label(label@, max as int),
{
    let cs = chars_of(label);
    if byte_len(&cs) <= max {
        return label.to_string();
    }
    if let Some(v) = version_label(&cs, max) {
        return v;
    }
    let cut: usize = if max >= 1 {
        max - 1
    } else {
        0
    };
    cut_label(&cs, cut)
}


/// Whether a pin can be shortened for display without cutting a character.
pub fn short_pin_fits(pin: &str) -> (r: bool)
    ensures
        r == short_pin_ok(pin@),
{
    let cs = chars_of(pin);
    let w = crate::text::utf8_len_wide(&cs);
    if w > usize::MAX as u128 {
        return false;
    }
    if w > 12 {
        chars_in_bytes(&cs, 11).is_some()
    } else {
        true
    }
}

/// Whether [`truncate_label`] can cut `label` to `max` bytes without cutting
/// a character.
pub fn truncate_fits(label: &str, max: usize) -> (r: bool)
    ensures
        r == (blen(label@) <= usize::MAX && (blen(label@) > max && !keeps_version(label@, max as int)
            ==> char_boundary(label@, sat_sub(max as int, 1)))),
{
    let cs = chars_of(label);
    let w = crate::text::utf8_len_wide(&cs);
    if w > usize::MAX as u128 {
        return false;
    }
    if w <= max as u128 {
        return true;
    }
    if version_label(&cs, max).is_some() {
        return true;
    }
    let cut: usize = if max >= 1 {
        max - 1
    } else {
        0
    };
    chars_in_bytes(&cs, cut).is_some()
}

} // verus!
