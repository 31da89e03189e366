//! Entries of the on-disk cache of GitHub answers, and the names of their files.
//!
//! Ref entries live under `<cache>/github/<owner>/<repo>/refs/<tags|heads>/`,
//! in a file named after the ref with every `/` written as `%2F`, so that
//! branch names with slashes stay within their directory.
use vstd::prelude::*;

use super::RefKind;
use crate::text::{chars_of, push_str};

verus! {

/// A single on-disk cache entry for a resolved GitHub ref.
#[derive(Debug, Clone, PartialEq, Eq)]
pub struct CacheEntry {
    /// Full 40-character commit SHA.
    pub sha: String,
    /// How the ref was classified when it was fetched: `"tag"`, `"branch"`, or `"sha"`.
    pub ref_kind: String,
    /// ISO 8601 publication timestamp from the GitHub Releases API, or none.
    pub published_at: Option<String>,
    /// Unix timestamp (seconds) when this entry was written to the cache.
    pub fetched_at: u64,
}

/// The kind that a stored kind name stands for: `"tag"`, `"sha"`, and a
/// branch for anything else.
pub open spec fn spec_entry_kind(stored: Seq<char>) -> RefKind {
    if stored == "tag"@ {
        RefKind::Tag
    } else if stored == "sha"@ {
        RefKind::Sha
    } else {
        RefKind::Branch
    }
}

impl CacheEntry {
    /// Reconstruct the [`RefKind`] from the stored string.
    pub fn ref_kind(&self) -> (r: RefKind)
        ensures
            r == spec_entry_kind(self.ref_kind@),
    {
        let s = self.ref_kind.as_str();
        proof {
            reveal_strlit("tag");
            reveal_strlit("sha");
        }
        if crate::text::str_eq(s, "tag") {
            RefKind::Tag
        } else if crate::text::str_eq(s, "sha") {
            RefKind::Sha
        } else {
            RefKind::Branch
        }
    }
}

/// `s` with every `/` replaced by `%2F`.
pub open spec fn spec_encode_ref(s: Seq<char>) -> Seq<char>
    decreases s.len(),
{
    if s.len() == 0 {
        Seq::empty()
    } else {
        let rest = spec_encode_ref(s.drop_last());
        if s.last() == '/' {
            rest + "%2F"@
        } else {
            rest.push(s.last())
        }
    }
}

/// Encode a ref string for use as a file-system path component: only `/` is
/// encoded (as `%2F`); every other character is kept.
pub fn encode_ref(s: &str) -> (r: String)
    ensures
        r@ == spec_encode_ref(s@),
{
    let cs = chars_of(s);
    let mut out = String::new();
    let mut i: usize = 0;
    while i < cs.len()
        invariant
            cs@ == s@,
            0 <= i <= cs.len(),
            out@ == spec_encode_ref(cs@.take(i as int)),
        decreases cs.len() - i,
    {
        proof {
            assert(cs@.take(i as int + 1).drop_last() == cs@.take(i as int));
            reveal_strlit("%2F");
        }
        if cs[i] == '/' {
            push_str(&mut out, "%2F");
        } else {
            out.push(cs[i]);
        }
        i += 1;
    }
    proof {
        assert(cs@.take(cs.len() as int) == cs@);
    }
    out
}

/// The file name of the cache entry for `git_ref`: the encoded ref and `.json`.
pub fn entry_file_name(git_ref: &str) -> (r: String)
    ensures
        r@ == spec_encode_ref(git_ref@) + ".json"@,
{
    let mut out = encode_ref(git_ref);
    push_str(&mut out, ".json");
    out
}

/// The entry that records a resolution of kind `kind` at time `now`.
pub fn entry_for(sha: &str, kind: RefKind, published_at: Option<&str>, now: u64) -> (r: CacheEntry)
    ensures
        r.sha@ == sha@,
        r.ref_kind@ == super::ref_kind_label(kind),
        r.published_at is Some <==> published_at is Some,
        published_at is Some ==> r.published_at->0@ == published_at->0@,
        r.fetched_at == now,
{
    let published = match published_at {
        Some(p) => Some(p.to_string()),
        None => None,
    };
    CacheEntry {
        sha: sha.to_string(),
        ref_kind: kind.as_str().to_string(),
        published_at: published,
        fetched_at: now,
    }
}

} // verus!
