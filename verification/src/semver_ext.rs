//! Semantic versions as read by the `semver` crate.
use vstd::prelude::*;

verus! {

/// What `semver::Version::parse` gives for `text`: `(major, minor, patch,
/// pre-release, build metadata)`, or `None` when it rejects the text.
pub uninterp spec fn semver_parse(text: Seq<char>) -> Option<(u64, u64, u64, Seq<char>, Seq<char>)>;

/// How `semver::BuildMetadata` orders `a` against `b`: negative, zero or positive.
pub uninterp spec fn build_order(a: Seq<char>, b: Seq<char>) -> int;

/// The parts of a version as parsed from its text.
#[derive(Debug, Clone)]
pub struct SemverParts {
    pub major: u64,
    pub minor: u64,
    pub patch: u64,
    pub pre: String,
    pub build: String,
}

/// Calls `semver::Version::parse` and hands out the parsed components; the
/// contract claims only that the result is the crate's parse of `text`.
#[verifier::external_body]
pub fn parse_semver(text: &str) -> (r: Option<SemverParts>)
    ensures
        match r {
            Some(p) => semver_parse(text@) == Some(
                (p.major, p.minor, p.patch, p.pre@, p.build@),
            ),
            None => semver_parse(text@) is None,
        },
{
    match semver::Version::parse(text) {
        Ok(v) => Some(
            SemverParts {
                major: v.major,
                minor: v.minor,
                patch: v.patch,
                pre: v.pre.as_str().to_string(),
                build: v.build.as_str().to_string(),
            },
        ),
        Err(_) => None,
    }
}

/// Compares two build-metadata strings with `semver::BuildMetadata`'s order.
/// Text that the crate rejects compares as equal; the contract claims only
/// that the sign is the crate's order of the two strings.
#[verifier::external_body]
pub fn compare_build(a: &str, b: &str) -> (r: i8)
    ensures
        r == -1 || r == 0 || r == 1,
        r == build_order(a@, b@),
{
    match (semver::BuildMetadata::new(a), semver::BuildMetadata::new(b)) {
        (Ok(x), Ok(y)) => if x < y {
            -1
        } else if y < x {
            1
        } else {
            0
        },
        _ => 0,
    }
}

} // verus!
