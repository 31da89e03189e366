//! Version tags (`v1.2.3`) and commit SHAs.
use vstd::prelude::*;

use crate::text::{
    all_hex, chars_of, dec_value, digit, digit_run, hex, is_digit, leading_decimal,
    starts_with,
};

verus! {

/// A `major.minor.patch` version; missing components read as zero.
#[derive(Debug, Clone, Copy, PartialEq, Eq, PartialOrd, Ord, Structural)]
pub struct Version {
    pub major: u32,
    pub minor: u32,
    pub patch: u32,
}

/// `a` sorts strictly before `b`: the components are compared in order.
pub open spec fn version_lt(a: Version, b: Version) -> bool {
    ||| a.major < b.major
    ||| (a.major == b.major && a.minor < b.minor)
    ||| (a.major == b.major && a.minor == b.minor && a.patch < b.patch)
}

pub open spec fn version_le(a: Version, b: Version) -> bool {
    version_lt(a, b) || a == b
}

impl Version {
    /// `self` sorts strictly before `other`.
    pub fn lt(&self, other: &Version) -> (r: bool)
        ensures
            r == version_lt(*self, *other),
    {
        self.major < other.major || (self.major == other.major && self.minor < other.minor) || (
        self.major == other.major && self.minor == other.minor && self.patch < other.patch)
    }
}

/// `raw` with one leading `v` (or, failing that, `V`) removed.
pub open spec fn strip_v(raw: Seq<char>) -> Seq<char> {
    if raw.len() > 0 && (raw[0] == 'v' || raw[0] == 'V') {
        raw.drop_first()
    } else {
        raw
    }
}

/// The text after the first `.` of `s`, when `s` holds one.
pub open spec fn after_dot(s: Seq<char>) -> Option<Seq<char>> {
    match crate::text::first_index_of(s, '.') {
        Some(i) => Some(s.skip(i + 1)),
        None => None,
    }
}

/// The value of the leading digits of `s`, when there are some and it fits in a `u32`.
pub open spec fn leading_int(s: Seq<char>) -> Option<u32> {
    let run = digit_run(s);
    if run > 0 && dec_value(s.take(run as int)) <= u32::MAX {
        Some(dec_value(s.take(run as int)) as u32)
    } else {
        None
    }
}

/// A dotted component: its leading integer, or zero when the component is absent.
pub open spec fn component(part: Option<Seq<char>>) -> Option<u32> {
    match part {
        Some(p) => leading_int(p),
        None => Some(0),
    }
}

pub open spec fn and_then_after_dot(part: Option<Seq<char>>) -> Option<Seq<char>> {
    match part {
        Some(p) => after_dot(p),
        None => None,
    }
}

/// The version that `raw` names: an optional `v`/`V`, then up to three
/// dot-separated components, each read from its leading digits.
pub open spec fn spec_parse_version(raw: Seq<char>) -> Option<Version> {
    let value = strip_v(raw);
    if value.len() == 0 || !is_digit(value[0]) {
        None
    } else {
        let minor_part = after_dot(value);
        let patch_part = and_then_after_dot(minor_part);
        match (leading_int(value), component(minor_part), component(patch_part)) {
            (Some(major), Some(minor), Some(patch)) => Some(
                Version { major, minor, patch },
            ),
            _ => None,
        }
    }
}

/// Leading integer of `cs[from..]`, read as `leading_int` describes.
pub fn parse_leading_int(cs: &[char], from: usize) -> (r: Option<u32>)
    requires
        from <= cs.len(),
    ensures
        r == leading_int(cs@.skip(from as int)),
{
    match leading_decimal(cs, from, 0xffff_ffff) {
        Some(v) => Some(v as u32),
        None => None,
    }
}

/// Leading integer of the component after the first `.` in `cs[from..]`, or
/// zero when there is no further `.`; also the index after that `.`.
fn next_component(cs: &[char], from: usize) -> (r: (Option<usize>, Option<u32>))
    requires
        from <= cs.len(),
    ensures
        r.0 matches Some(i) ==> from < i <= cs.len() && after_dot(cs@.skip(from as int)) == Some(
            cs@.skip(i as int),
        ),
        r.0 is None ==> after_dot(cs@.skip(from as int)) is None,
        r.1 == component(after_dot(cs@.skip(from as int))),
{
    let ghost rest = cs@.skip(from as int);
    match crate::text::find_char_from(cs, from, '.') {
        Some(i) => {
            proof {
                crate::text::lemma_first_index_of(rest, '.', i - from);
                assert(rest.skip(i - from + 1) == cs@.skip(i + 1));
            }
            (Some(i + 1), parse_leading_int(cs, i + 1))
        },
        None => {
            proof {
                assert(!(exists|k: int| 0 <= k < rest.len() && rest[k] == '.')) by {
                    assert forall|k: int| 0 <= k < rest.len() implies rest[k] != '.' by {
                        assert(rest[k] == cs@[from + k]);
                    }
                }
            }
            (None, Some(0))
        },
    }
}

/// Parse a version tag such as `v1.2.3`, `V4`, or `1.2.3-beta`.
pub fn parse_version(raw: &str) -> (r: Option<Version>)
    ensures
        r == spec_parse_version(raw@),
{
    let cs = chars_of(raw);
    let start: usize = if cs.len() > 0 && (cs[0] == 'v' || cs[0] == 'V') {
        1
    } else {
        0
    };
    let ghost value = strip_v(raw@);
    assert(value == cs@.skip(start as int));
    if start >= cs.len() || !digit(cs[start]) {
        return None;
    }
    assert(cs@.skip(start as int).skip(0) == cs@.skip(start as int));
    let major = parse_leading_int(&cs, start);
    let (after_major, minor) = next_component(&cs, start);
    let patch = match after_major {
        Some(i) => {
            let (_, p) = next_component(&cs, i);
            p
        },
        None => Some(0),
    };
    match (major, minor, patch) {
        (Some(major), Some(minor), Some(patch)) => Some(Version { major, minor, patch }),
        _ => None,
    }
}

/// Between 7 and 40 characters, all hexadecimal digits.
pub open spec fn spec_is_likely_sha(value: Seq<char>) -> bool {
    7 <= value.len() <= 40 && all_hex(value)
}

/// Whether `value` looks like a (possibly abbreviated) commit SHA.
pub fn is_likely_sha(value: &str) -> (r: bool)
    ensures
        r == spec_is_likely_sha(value@),
{
    let cs = chars_of(value);
    if cs.len() < 7 || cs.len() > 40 {
        return false;
    }
    let mut i: usize = 0;
    while i < cs.len()
        invariant
            i <= cs.len(),
            cs@ == value@,
            forall|j: int| 0 <= j < i ==> crate::text::is_hex(#[trigger] cs@[j]),
        decreases cs.len() - i,
    {
        if !hex(cs[i]) {
            return false;
        }
        i += 1;
    }
    true
}

/// `actual` equals `expected` or abbreviates it.
pub open spec fn spec_sha_matches(actual: Seq<char>, expected: Seq<char>) -> bool {
    actual == expected || starts_with(expected, actual)
}

/// Whether the commit `actual` is `expected` or an abbreviation of it.
pub fn sha_matches(actual: &str, expected: &str) -> (r: bool)
    ensures
        r == spec_sha_matches(actual@, expected@),
{
    let a = chars_of(actual);
    let e = chars_of(expected);
    proof {
        if a@ == e@ {
            assert(e@.take(a@.len() as int) =~= e@);
        }
    }
    crate::text::has_prefix(&e, &a)
}

} // verus!
