//! Update candidates: which tag a reference moves to, and why.
use vstd::prelude::*;

use crate::audit::{is_version_tag, spec_is_version_tag};
use crate::config::{UpdateLevel, parse_u64, spec_parse_u64};
use crate::discovery::ActionRef;
use crate::github::tags::GitHubTag;
use crate::github::{is_full_sha, spec_is_full_sha};
use crate::model::PinStyle;
use crate::text::{all_hex, chars_of, hex, slice_vec, split_any, split_on_any};

verus! {

/// A proposed update of one reference.
#[derive(Debug, Clone, PartialEq, Eq)]
pub struct Candidate {
    pub id: String,
    pub action: ActionRef,
    pub target_ref: String,
    pub version: String,
    pub sha: String,
    pub pin: PinStyle,
    pub notes: Vec<&'static str>,
}

/// The indices of all candidates, in order.
pub fn all_candidate_indexes(candidates: &[Candidate]) -> (r: Vec<usize>)
    ensures
        r@ == Seq::new(candidates@.len(), |i: int| i as usize),
{
    let mut out: Vec<usize> = Vec::new();
    let mut i: usize = 0;
    while i < candidates.len()
        invariant
            0 <= i <= candidates.len(),
            out@ == Seq::new(i as nat, |k: int| k as usize),
        decreases candidates.len() - i,
    {
        out.push(i);
        proof {
            assert(out@ =~= Seq::new((i + 1) as nat, |k: int| k as usize));
        }
        i += 1;
    }
    out
}

/// A tag without its leading `v`.
pub open spec fn strip_v(s: Seq<char>) -> Seq<char> {
    if s.len() > 0 && s[0] == 'v' {
        s.drop_first()
    } else {
        s
    }
}

/// The number in one dotted part of a tag, 0 when it is not one.
pub open spec fn part_number(p: Seq<char>) -> u64 {
    match spec_parse_u64(p) {
        Some(v) => v,
        None => 0,
    }
}

/// The numbers of a tag's dotted parts, the sort key of tags.
pub open spec fn spec_version_key(tag: Seq<char>) -> Seq<u64> {
    split_any(strip_v(tag), seq!['.']).map_values(|p: Seq<char>| part_number(p))
}

/// The sort key of a tag name.
pub fn version_key(tag: &str) -> (r: Vec<u64>)
    ensures
        r@ == spec_version_key(tag@),
{
    let cs = chars_of(tag);
    let body = if cs.len() > 0 && cs[0] == 'v' {
        slice_vec(&cs, 1, cs.len())
    } else {
        slice_vec(&cs, 0, cs.len())
    };
    proof {
        if cs@.len() > 0 && cs@[0] == 'v' {
            assert(body@ =~= cs@.drop_first());
        } else {
            assert(body@ =~= cs@);
        }
    }
    let seps = vec!['.'];
    let parts = split_on_any(&body, &seps);
    proof {
        assert(seps@ =~= seq!['.']);
    }
    let ghost ps = parts@.map_values(|l: Vec<char>| l@);
    let mut out: Vec<u64> = Vec::new();
    let mut i: usize = 0;
    while i < parts.len()
        invariant
            0 <= i <= parts.len(),
            ps == parts@.map_values(|l: Vec<char>| l@),
            out@ == ps.take(i as int).map_values(|p: Seq<char>| part_number(p)),
        decreases parts.len() - i,
    {
        let v = match parse_u64(&parts[i]) {
            Some(v) => v,
            None => 0,
        };
        out.push(v);
        proof {
            assert(ps[i as int] == parts@[i as int]@);
            assert(out@ =~= ps.take(i as int + 1).map_values(|p: Seq<char>| part_number(p)));
        }
        i += 1;
    }
    proof {
        assert(ps.take(ps.len() as int) =~= ps);
    }
    out
}

/// `a` sorts before `b`, element by element, a proper prefix first.
pub open spec fn key_lt(a: Seq<u64>, b: Seq<u64>) -> bool
    decreases a.len(),
{
    if a.len() == 0 {
        b.len() > 0
    } else if b.len() == 0 {
        false
    } else if a[0] != b[0] {
        a[0] < b[0]
    } else {
        key_lt(a.drop_first(), b.drop_first())
    }
}

fn less_key(a: &[u64], b: &[u64]) -> (r: bool)
    ensures
        r == key_lt(a@, b@),
{
    let mut i: usize = 0;
    proof {
        assert(a@.skip(0) == a@);
        assert(b@.skip(0) == b@);
    }
    while i < a.len() && i < b.len() && a[i] == b[i]
        invariant
            0 <= i <= a.len(),
            i <= b.len(),
            key_lt(a@, b@) == key_lt(a@.skip(i as int), b@.skip(i as int)),
        decreases a.len() - i,
    {
        proof {
            assert(a@.skip(i as int).drop_first() == a@.skip(i as int + 1));
            assert(b@.skip(i as int).drop_first() == b@.skip(i as int + 1));
        }
        i += 1;
    }
    if i == a.len() {
        i < b.len()
    } else if i == b.len() {
        false
    } else {
        a[i] < b[i]
    }
}

/// The first part of a key, 0 when there is none.
pub open spec fn key_at(k: Seq<u64>, i: int) -> u64 {
    if 0 <= i < k.len() {
        k[i]
    } else {
        0
    }
}

/// A tag with key `key` is in reach of `current` at `level`.
pub open spec fn level_allows(key: Seq<u64>, current: Seq<u64>, level: UpdateLevel) -> bool {
    match level {
        UpdateLevel::Major => true,
        UpdateLevel::Minor => key_at(key, 0) == key_at(current, 0),
        UpdateLevel::Patch => key_at(key, 0) == key_at(current, 0) && key_at(key, 1) == key_at(current, 1),
    }
}

/// The index of the tag with the greatest key among the first `n` tags that
/// `ok` admits; of equal keys the last one.
pub open spec fn newest_among(tags: Seq<GitHubTag>, ok: spec_fn(GitHubTag) -> bool, n: int) -> Option<int>
    decreases n,
{
    if n <= 0 {
        None
    } else {
        let best = newest_among(tags, ok, n - 1);
        if !ok(tags[n - 1]) {
            best
        } else {
            match best {
                None => Some(n - 1),
                Some(b) => if key_lt(spec_version_key(tags[n - 1].name@), spec_version_key(tags[b].name@)) {
                    Some(b)
                } else {
                    Some(n - 1)
                },
            }
        }
    }
}

pub open spec fn any_tag() -> spec_fn(GitHubTag) -> bool {
    |t: GitHubTag| true
}

pub open spec fn within_level(current: Seq<u64>, level: UpdateLevel) -> spec_fn(GitHubTag) -> bool {
    |t: GitHubTag| level_allows(spec_version_key(t.name@), current, level)
}

pub proof fn lemma_newest_bound(tags: Seq<GitHubTag>, ok: spec_fn(GitHubTag) -> bool, n: int)
    ensures
        newest_among(tags, ok, n) matches Some(b) ==> 0 <= b < n,
    decreases n,
{
    if n > 0 {
        lemma_newest_bound(tags, ok, n - 1);
    }
}

/// The tag with the greatest version key, the last of equals.
pub fn newest_version_tag(tags: &[GitHubTag]) -> (r: Option<usize>)
    ensures
        match r {
            Some(i) => newest_among(tags@, any_tag(), tags@.len() as int) == Some(i as int),
            None => newest_among(tags@, any_tag(), tags@.len() as int) is None,
        },
{
    let mut best: Option<usize> = None;
    let mut best_key: Vec<u64> = Vec::new();
    let mut i: usize = 0;
    while i < tags.len()
        invariant
            0 <= i <= tags.len(),
            match best {
                Some(b) => newest_among(tags@, any_tag(), i as int) == Some(b as int) && best_key@
                    == spec_version_key(tags@[b as int].name@),
                None => newest_among(tags@, any_tag(), i as int) is None,
            },
        decreases tags.len() - i,
    {
        proof {
            lemma_newest_bound(tags@, any_tag(), i as int);
        }
        let key = version_key(tags[i].name.as_str());
        match best {
            None => {
                best = Some(i);
                best_key = key;
            },
            Some(b) => {
                if !less_key(&key, &best_key) {
                    best = Some(i);
                    best_key = key;
                }
            },
        }
        i += 1;
    }
    best
}

/// The newest tag that `level` lets `current_ref` move to.
pub fn newest_tag_for_level(tags: &[GitHubTag], current_ref: &str, level: UpdateLevel) -> (r: Option<usize>)
    ensures
        match r {
            Some(i) => newest_among(
                tags@,
                within_level(spec_version_key(current_ref@), level),
                tags@.len() as int,
            ) == Some(i as int),
            None => newest_among(
                tags@,
                within_level(spec_version_key(current_ref@), level),
                tags@.len() as int,
            ) is None,
        },
{
    let current = version_key(current_ref);
    let ghost ok = within_level(spec_version_key(current_ref@), level);
    let c0: u64 = if current.len() > 0 {
        current[0]
    } else {
        0
    };
    let c1: u64 = if current.len() > 1 {
        current[1]
    } else {
        0
    };
    let mut best: Option<usize> = None;
    let mut best_key: Vec<u64> = Vec::new();
    let mut i: usize = 0;
    while i < tags.len()
        invariant
            0 <= i <= tags.len(),
            ok == within_level(spec_version_key(current_ref@), level),
            current@ == spec_version_key(current_ref@),
            c0 == key_at(current@, 0),
            c1 == key_at(current@, 1),
            match best {
                Some(b) => newest_among(tags@, ok, i as int) == Some(b as int) && best_key@
                    == spec_version_key(tags@[b as int].name@),
                None => newest_among(tags@, ok, i as int) is None,
            },
        decreases tags.len() - i,
    {
        proof {
            lemma_newest_bound(tags@, ok, i as int);
        }
        let key = version_key(tags[i].name.as_str());
        let k0: u64 = if key.len() > 0 {
            key[0]
        } else {
            0
        };
        let k1: u64 = if key.len() > 1 {
            key[1]
        } else {
            0
        };
        let allowed = match level {
            UpdateLevel::Major => true,
            UpdateLevel::Minor => k0 == c0,
            UpdateLevel::Patch => k0 == c0 && k1 == c1,
        };
        proof {
            assert(allowed == ok(tags@[i as int]));
        }
        if allowed {
            match best {
                None => {
                    best = Some(i);
                    best_key = key;
                },
                Some(b) => {
                    if !less_key(&key, &best_key) {
                        best = Some(i);
                        best_key = key;
                    }
                },
            }
        }
        i += 1;
    }
    best
}

/// A ref that names neither a full SHA, nor a version tag, nor a run of
/// fewer than 40 hexadecimal digits.
pub open spec fn spec_is_branch_like_ref(s: Seq<char>) -> bool {
    !(spec_is_full_sha(s) || spec_is_version_tag(s) || (s.len() < 40 && all_hex(s)))
}

/// Whether `ref_name` looks like a branch.
pub fn is_branch_like_ref(ref_name: &str) -> (r: bool)
    ensures
        r == spec_is_branch_like_ref(ref_name@),
{
    if is_full_sha(ref_name) || is_version_tag(ref_name) {
        return false;
    }
    let cs = chars_of(ref_name);
    if cs.len() >= 40 {
        return true;
    }
    let mut i: usize = 0;
    while i < cs.len()
        invariant
            0 <= i <= cs.len(),
            cs@ == ref_name@,
            !spec_is_full_sha(ref_name@),
            !spec_is_version_tag(ref_name@),
            forall|j: int| 0 <= j < i ==> crate::text::is_hex(#[trigger] cs@[j]),
        decreases cs.len() - i,
    {
        if !hex(cs[i]) {
            proof {
                assert(!crate::text::is_hex(ref_name@[i as int]));
            }
            return true;
        }
        i += 1;
    }
    false
}

/// The notes of a candidate: a ref that is not a full SHA could move.
pub fn update_notes(action_ref: &ActionRef) -> (r: Vec<&'static str>)
    ensures
        spec_is_full_sha(action_ref.ref_name@) ==> r@.len() == 0,
        !spec_is_full_sha(action_ref.ref_name@) ==> r@.len() == 1 && r@[0]@ == "mutable_ref"@,
{
    if is_full_sha(action_ref.ref_name.as_str()) {
        Vec::new()
    } else {
        proof {
            reveal_strlit("mutable_ref");
        }
        let mut v: Vec<&'static str> = Vec::new();
        v.push("mutable_ref");
        v
    }
}

/// The tag an update moves to: the newest that `level` allows, or the
/// newest of all when no level is set.
pub open spec fn spec_update_target(tags: Seq<GitHubTag>, current: Seq<char>, level: Option<UpdateLevel>) -> Option<
    int,
> {
    match level {
        Some(l) => newest_among(tags, within_level(spec_version_key(current), l), tags.len() as int),
        None => newest_among(tags, any_tag(), tags.len() as int),
    }
}

/// Chooses the tag that a reference at `current_ref` moves to.
pub fn update_target(tags: &[GitHubTag], current_ref: &str, level: Option<UpdateLevel>) -> (r: Option<usize>)
    ensures
        match r {
            Some(i) => spec_update_target(tags@, current_ref@, level) == Some(i as int),
            None => spec_update_target(tags@, current_ref@, level) is None,
        },
{
    match level {
        Some(l) => newest_tag_for_level(tags, current_ref, l),
        None => newest_version_tag(tags),
    }
}

/// The index of the tag with the greatest key among the first `n` tags
/// that `flags` marks; of equal keys the last one.
pub open spec fn newest_flagged(tags: Seq<GitHubTag>, flags: Seq<bool>, n: int) -> Option<int>
    decreases n,
{
    if n <= 0 {
        None
    } else {
        let best = newest_flagged(tags, flags, n - 1);
        if !flags[n - 1] {
            best
        } else {
            match best {
                None => Some(n - 1),
                Some(b) => if key_lt(spec_version_key(tags[n - 1].name@), spec_version_key(tags[b].name@)) {
                    Some(b)
                } else {
                    Some(n - 1)
                },
            }
        }
    }
}

proof fn lemma_flagged_bound(tags: Seq<GitHubTag>, flags: Seq<bool>, n: int)
    ensures
        newest_flagged(tags, flags, n) matches Some(b) ==> 0 <= b < n,
    decreases n,
{
    if n > 0 {
        lemma_flagged_bound(tags, flags, n - 1);
    }
}

/// The tag kept when releases younger than the minimum age are ruled out:
/// the preferred tag when its release is old enough, else the newest tag
/// whose release is, else the preferred tag after all. `old_enough[i]`
/// says whether tag `i` has a release at least the minimum age old.
pub open spec fn spec_aged_target(tags: Seq<GitHubTag>, preferred: int, old_enough: Seq<bool>) -> int {
    if old_enough[preferred] {
        preferred
    } else {
        match newest_flagged(tags, old_enough, tags.len() as int) {
            Some(i) => i,
            None => preferred,
        }
    }
}

/// Applies the minimum release age to the preferred tag.
pub fn aged_target(tags: &[GitHubTag], preferred: usize, old_enough: &[bool]) -> (r: usize)
    requires
        preferred < tags.len(),
        old_enough.len() == tags.len(),
    ensures
        r == spec_aged_target(tags@, preferred as int, old_enough@),
        r < tags.len(),
{
    if old_enough[preferred] {
        return preferred;
    }
    let mut best: Option<usize> = None;
    let mut best_key: Vec<u64> = Vec::new();
    let mut i: usize = 0;
    while i < tags.len()
        invariant
            0 <= i <= tags.len(),
            old_enough.len() == tags.len(),
            match best {
                Some(b) => newest_flagged(tags@, old_enough@, i as int) == Some(b as int) && b < i
                    && best_key@ == spec_version_key(tags@[b as int].name@),
                None => newest_flagged(tags@, old_enough@, i as int) is None,
            },
        decreases tags.len() - i,
    {
        proof {
            lemma_flagged_bound(tags@, old_enough@, i as int);
        }
        if old_enough[i] {
            let key = version_key(tags[i].name.as_str());
            match best {
                None => {
                    best = Some(i);
                    best_key = key;
                },
                Some(b) => {
                    if !less_key(&key, &best_key) {
                        best = Some(i);
                        best_key = key;
                    }
                },
            }
        }
        i += 1;
    }
    match best {
        Some(b) => b,
        None => preferred,
    }
}

/// The ref that a pin of tag `t` writes: its commit or its name.
pub open spec fn spec_target_ref(t: GitHubTag, pin: PinStyle) -> Seq<char> {
    match pin {
        PinStyle::Sha => t.sha@,
        PinStyle::Tag => t.name@,
    }
}

/// The candidate that moves `action_ref` to tag `t`, pinned as `pin`, as
/// the `n`-th candidate so far: none when the reference already names its
/// target.
pub fn candidate_for(action_ref: &ActionRef, t: &GitHubTag, pin: PinStyle, n: usize) -> (r: Option<Candidate>)
    requires
        n < usize::MAX,
    ensures
        action_ref.ref_name@ == spec_target_ref(*t, pin) ==> r is None,
        action_ref.ref_name@ != spec_target_ref(*t, pin) ==> (r matches Some(c) && c.id@ == "update-"@
            + crate::render::dec_string((n + 1) as nat) && c.action == *action_ref && c.target_ref@
            == spec_target_ref(*t, pin) && c.version == t.name && c.sha == t.sha && c.pin == pin && (if spec_is_full_sha(
            action_ref.ref_name@,
        ) {
            c.notes@.len() == 0
        } else {
            c.notes@.len() == 1 && c.notes@[0]@ == "mutable_ref"@
        })),
{
    let target_ref = match pin {
        PinStyle::Sha => t.sha.clone(),
        PinStyle::Tag => t.name.clone(),
    };
    if crate::text::str_eq(action_ref.ref_name.as_str(), target_ref.as_str()) {
        return None;
    }
    let mut id = String::new();
    crate::text::push_str(&mut id, "update-");
    crate::render::push_decimal(&mut id, (n + 1) as u64);
    proof {
        reveal_strlit("update-");
    }
    Some(
        Candidate {
            id,
            action: action_ref.duplicate(),
            target_ref,
            version: t.name.clone(),
            sha: t.sha.clone(),
            pin,
            notes: update_notes(action_ref),
        },
    )
}

/// A minimum release age as written, such as `7d`: a number, then `m`, `h`
/// or `d`; surrounding whitespace is ignored. The result is in seconds.
pub open spec fn spec_parse_duration(value: Seq<char>) -> Option<nat> {
    let t = crate::text::trim(value);
    if t.len() == 0 {
        None
    } else {
        match spec_parse_u64(t.drop_last()) {
            None => None,
            Some(n) => if t.last() == 'm' {
                Some((n * 60) as nat)
            } else if t.last() == 'h' {
                Some((n * 3600) as nat)
            } else if t.last() == 'd' {
                Some((n * 86400) as nat)
            } else {
                None
            },
        }
    }
}

/// The multiplier of a duration unit, if it is one.
pub open spec fn unit_seconds(c: char) -> nat {
    if c == 'm' {
        60
    } else if c == 'h' {
        3600
    } else if c == 'd' {
        86400
    } else {
        0
    }
}

/// Reads a minimum release age; `None` for anything else.
pub fn parse_duration(value: &str) -> (r: Option<u64>)
    requires
        crate::text::trim(value@).len() > 0 ==> crate::text::trim(value@).last() as u32 <= 0x7f,
        crate::text::trim(value@).len() > 0 ==> (spec_parse_u64(crate::text::trim(value@).drop_last()) matches Some(
            n,
        ) ==> n * unit_seconds(crate::text::trim(value@).last()) <= u64::MAX),
    ensures
        match r {
            Some(s) => spec_parse_duration(value@) == Some(s as nat),
            None => spec_parse_duration(value@) is None,
        },
{
    let cs = chars_of(value);
    let t = crate::text::trim_vec(&cs);
    if t.len() == 0 {
        return None;
    }
    let number = slice_vec(&t, 0, t.len() - 1);
    proof {
        assert(number@ =~= t@.drop_last());
    }
    let unit = t[t.len() - 1];
    let n = match parse_u64(&number) {
        Some(n) => n,
        None => return None,
    };
    if unit == 'm' {
        Some(n * 60)
    } else if unit == 'h' {
        Some(n * 3600)
    } else if unit == 'd' {
        Some(n * 86400)
    } else {
        None
    }
}

} // verus!
