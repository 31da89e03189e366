//! Character-level helpers shared by the parsers: conversion between strings
//! and character vectors, ASCII classes, searching and decimal parsing.
use vstd::prelude::*;

verus! {

pub assume_specification[ String::push ](s: &mut String, ch: char)
    ensures
        final(s)@ == old(s)@.push(ch),
;

// ---------------------------------------------------------------------------
// Character classes
// ---------------------------------------------------------------------------

pub open spec fn is_digit(c: char) -> bool {
    '0' <= c && c <= '9'
}

pub open spec fn is_hex(c: char) -> bool {
    ('0' <= c && c <= '9') || ('a' <= c && c <= 'f') || ('A' <= c && c <= 'F')
}

pub open spec fn is_alpha(c: char) -> bool {
    ('a' <= c && c <= 'z') || ('A' <= c && c <= 'Z')
}

/// Unicode `White_Space`, the class that `char::is_whitespace` and `str::trim` use.
pub open spec fn is_ws(c: char) -> bool {
    ||| ('\u{9}' <= c && c <= '\u{d}')
    ||| c == ' '
    ||| c == '\u{85}'
    ||| c == '\u{a0}'
    ||| c == '\u{1680}'
    ||| ('\u{2000}' <= c && c <= '\u{200a}')
    ||| c == '\u{2028}'
    ||| c == '\u{2029}'
    ||| c == '\u{202f}'
    ||| c == '\u{205f}'
    ||| c == '\u{3000}'
}

pub fn digit(c: char) -> (b: bool)
    ensures
        b == is_digit(c),
{
    '0' <= c && c <= '9'
}

pub fn hex(c: char) -> (b: bool)
    ensures
        b == is_hex(c),
{
    ('0' <= c && c <= '9') || ('a' <= c && c <= 'f') || ('A' <= c && c <= 'F')
}

pub fn alpha(c: char) -> (b: bool)
    ensures
        b == is_alpha(c),
{
    ('a' <= c && c <= 'z') || ('A' <= c && c <= 'Z')
}

pub fn ws(c: char) -> (b: bool)
    ensures
        b == is_ws(c),
{
    ('\u{9}' <= c && c <= '\u{d}') || c == ' ' || c == '\u{85}' || c == '\u{a0}' || c
        == '\u{1680}' || ('\u{2000}' <= c && c <= '\u{200a}') || c == '\u{2028}' || c
        == '\u{2029}' || c == '\u{202f}' || c == '\u{205f}' || c == '\u{3000}'
}

pub open spec fn all_hex(s: Seq<char>) -> bool {
    forall|i: int| 0 <= i < s.len() ==> is_hex(#[trigger] s[i])
}

pub open spec fn all_digits(s: Seq<char>) -> bool {
    forall|i: int| 0 <= i < s.len() ==> is_digit(#[trigger] s[i])
}

// ---------------------------------------------------------------------------
// Conversion
// ---------------------------------------------------------------------------

/// The characters of `s`, in order.
pub fn chars_of(s: &str) -> (v: Vec<char>)
    ensures
        v@ == s@,
{
    let mut v: Vec<char> = Vec::new();
    for c in it: s.chars()
        invariant
            v@ == it.seq().take(it.index() as int),
    {
        v.push(c);
    }
    v
}

/// A `String` holding exactly the characters of `cs`.
pub fn string_of(cs: &[char]) -> (s: String)
    ensures
        s@ == cs@,
{
    let mut s = String::new();
    let mut i: usize = 0;
    while i < cs.len()
        invariant
            i <= cs.len(),
            s@ == cs@.take(i as int),
        decreases cs.len() - i,
    {
        s.push(cs[i]);
        assert(cs@.take(i + 1) == cs@.take(i as int).push(cs@[i as int]));
        i += 1;
    }
    assert(cs@.take(cs.len() as int) == cs@);
    s
}

/// A `String` holding the characters `cs[from..to]`.
pub fn string_of_range(cs: &[char], from: usize, to: usize) -> (s: String)
    requires
        from <= to <= cs.len(),
    ensures
        s@ == cs@.subrange(from as int, to as int),
{
    let mut s = String::new();
    let mut i: usize = from;
    while i < to
        invariant
            from <= i <= to <= cs.len(),
            s@ == cs@.subrange(from as int, i as int),
        decreases to - i,
    {
        s.push(cs[i]);
        assert(cs@.subrange(from as int, i + 1) == cs@.subrange(from as int, i as int).push(
            cs@[i as int],
        ));
        i += 1;
    }
    s
}

/// Appends the characters of `t` to `s`.
pub fn push_str(s: &mut String, t: &str)
    ensures
        final(s)@ == old(s)@ + t@,
{
    let cs = chars_of(t);
    let ghost s0 = s@;
    let mut i: usize = 0;
    while i < cs.len()
        invariant
            i <= cs.len(),
            cs@ == t@,
            s@ == s0 + cs@.take(i as int),
        decreases cs.len() - i,
    {
        s.push(cs[i]);
        assert(cs@.take(i + 1) == cs@.take(i as int).push(cs@[i as int]));
        i += 1;
    }
    assert(cs@.take(cs.len() as int) == cs@);
}

/// A fresh `String` with the characters of `t`.
pub fn owned(t: &str) -> (s: String)
    ensures
        s@ == t@,
{
    t.to_owned()
}

/// Two strings with the same characters.
pub fn str_eq(a: &str, b: &str) -> (r: bool)
    ensures
        r == (a@ == b@),
{
    let x = a.to_owned();
    let y = b.to_owned();
    x == y
}

/// Concatenation of two strings.
pub fn concat2(a: &str, b: &str) -> (s: String)
    ensures
        s@ == a@ + b@,
{
    let mut s = a.to_owned();
    push_str(&mut s, b);
    s
}

/// Concatenation of three strings.
pub fn concat3(a: &str, b: &str, c: &str) -> (s: String)
    ensures
        s@ == a@ + b@ + c@,
{
    let mut s = a.to_owned();
    push_str(&mut s, b);
    push_str(&mut s, c);
    s
}

// ---------------------------------------------------------------------------
// Sequence predicates
// ---------------------------------------------------------------------------

pub open spec fn starts_with(s: Seq<char>, p: Seq<char>) -> bool {
    p.len() <= s.len() && s.take(p.len() as int) == p
}

pub open spec fn ends_with(s: Seq<char>, p: Seq<char>) -> bool {
    p.len() <= s.len() && s.skip(s.len() - p.len()) == p
}

/// `p` occurs in `s` starting at index `i`.
pub open spec fn occurs_at(s: Seq<char>, p: Seq<char>, i: int) -> bool {
    0 <= i && i + p.len() <= s.len() && s.subrange(i, i + p.len()) == p
}

pub open spec fn contains_seq(s: Seq<char>, p: Seq<char>) -> bool {
    exists|i: int| occurs_at(s, p, i)
}

/// Index of the first occurrence of `c` in `s`, if any.
pub open spec fn first_index_of(s: Seq<char>, c: char) -> Option<int> {
    if exists|i: int| 0 <= i < s.len() && s[i] == c {
        Some(choose|i: int| 0 <= i < s.len() && s[i] == c && forall|j: int| 0 <= j < i ==> s[j] != c)
    } else {
        None
    }
}

pub proof fn lemma_first_index_of(s: Seq<char>, c: char, i: int)
    requires
        0 <= i < s.len(),
        s[i] == c,
        forall|j: int| 0 <= j < i ==> s[j] != c,
    ensures
        first_index_of(s, c) == Some(i),
{
    let k = choose|k: int| 0 <= k < s.len() && s[k] == c && forall|j: int| 0 <= j < k ==> s[j] != c;
    assert(0 <= k < s.len() && s[k] == c && forall|j: int| 0 <= j < k ==> s[j] != c);
    if k < i {
        assert(s[k] != c);
    }
    if i < k {
        assert(s[i] != c);
    }
}

/// Index of the first occurrence of `p` in `s`, if any.
pub open spec fn first_occurrence(s: Seq<char>, p: Seq<char>) -> Option<int> {
    if contains_seq(s, p) {
        Some(choose|i: int| occurs_at(s, p, i) && forall|j: int| 0 <= j < i ==> !occurs_at(s, p, j))
    } else {
        None
    }
}

pub proof fn lemma_first_occurrence(s: Seq<char>, p: Seq<char>, i: int)
    requires
        occurs_at(s, p, i),
        forall|j: int| 0 <= j < i ==> !occurs_at(s, p, j),
    ensures
        first_occurrence(s, p) == Some(i),
{
    assert(contains_seq(s, p));
    let k = choose|k: int| occurs_at(s, p, k) && forall|j: int| 0 <= j < k ==> !occurs_at(s, p, j);
    assert(occurs_at(s, p, k) && forall|j: int| 0 <= j < k ==> !occurs_at(s, p, j));
    if k < i {
        assert(!occurs_at(s, p, k));
    }
    if i < k {
        assert(!occurs_at(s, p, i));
    }
}

// ---------------------------------------------------------------------------
// Searching
// ---------------------------------------------------------------------------

/// Index of the first `c` in `cs[from..]`.
pub fn find_char_from(cs: &[char], from: usize, c: char) -> (r: Option<usize>)
    requires
        from <= cs.len(),
    ensures
        match r {
            Some(i) => from <= i < cs.len() && cs@[i as int] == c && forall|j: int|
                from <= j < i ==> cs@[j] != c,
            None => forall|j: int| from <= j < cs.len() ==> cs@[j] != c,
        },
{
    let mut i = from;
    while i < cs.len()
        invariant
            from <= i <= cs.len(),
            forall|j: int| from <= j < i ==> cs@[j] != c,
        decreases cs.len() - i,
    {
        if cs[i] == c {
            return Some(i);
        }
        i += 1;
    }
    None
}

/// Index of the first `c` in `cs`, as `first_index_of` describes it.
pub fn find_char(cs: &[char], c: char) -> (r: Option<usize>)
    ensures
        match r {
            Some(i) => first_index_of(cs@, c) == Some(i as int) && i < cs.len(),
            None => first_index_of(cs@, c) is None,
        },
        r is Some <==> cs@.contains(c),
{
    let r = find_char_from(cs, 0, c);
    proof {
        match r {
            Some(i) => {
                lemma_first_index_of(cs@, c, i as int);
                assert(cs@.contains(c)) by { assert(cs@[i as int] == c); }
            },
            None => {
                assert(!(exists|i: int| 0 <= i < cs@.len() && cs@[i] == c));
            },
        }
    }
    r
}

/// Index of the last `c` in `cs`.
pub fn rfind_char(cs: &[char], c: char) -> (r: Option<usize>)
    ensures
        match r {
            Some(i) => i < cs.len() && cs@[i as int] == c && forall|j: int|
                i < j < cs.len() ==> cs@[j] != c,
            None => forall|j: int| 0 <= j < cs.len() ==> cs@[j] != c,
        },
{
    let mut i = cs.len();
    while i > 0
        invariant
            i <= cs.len(),
            forall|j: int| i <= j < cs.len() ==> cs@[j] != c,
        decreases i,
    {
        if cs[i - 1] == c {
            return Some(i - 1);
        }
        i -= 1;
    }
    None
}

/// Whether `p` occurs in `cs` at index `i`.
pub fn matches_at(cs: &[char], p: &[char], i: usize) -> (r: bool)
    ensures
        r == occurs_at(cs@, p@, i as int),
{
    if i > cs.len() || p.len() > cs.len() - i {
        return false;
    }
    let mut k: usize = 0;
    while k < p.len()
        invariant
            i + p.len() <= cs.len(),
            k <= p.len(),
            forall|j: int| 0 <= j < k ==> cs@[i + j] == p@[j],
        decreases p.len() - k,
    {
        if cs[i + k] != p[k] {
            assert(cs@.subrange(i as int, i + p.len())[k as int] != p@[k as int]);
            return false;
        }
        k += 1;
    }
    assert(cs@.subrange(i as int, i + p.len()) =~= p@);
    true
}

/// Index of the first occurrence of `p` in `cs`.
pub fn find_seq(cs: &[char], p: &[char]) -> (r: Option<usize>)
    ensures
        match r {
            Some(i) => first_occurrence(cs@, p@) == Some(i as int),
            None => first_occurrence(cs@, p@) is None,
        },
        r is Some <==> contains_seq(cs@, p@),
{
    if p.len() > cs.len() {
        proof {
            assert forall|j: int| !occurs_at(cs@, p@, j) by {}
        }
        return None;
    }
    let limit = cs.len() - p.len();
    let mut i: usize = 0;
    loop
        invariant
            limit == cs.len() - p.len(),
            i <= limit,
            forall|j: int| 0 <= j < i ==> !occurs_at(cs@, p@, j),
        ensures
            forall|j: int| 0 <= j <= limit ==> !occurs_at(cs@, p@, j),
        decreases limit - i,
    {
        if matches_at(cs, p, i) {
            proof { lemma_first_occurrence(cs@, p@, i as int); }
            return Some(i);
        }
        if i == limit {
            break;
        }
        i += 1;
    }
    proof {
        assert forall|j: int| !occurs_at(cs@, p@, j) by {
            if 0 <= j <= limit {
            }
        }
    }
    None
}

/// Whether `s` begins with `p`.
pub fn has_prefix(cs: &[char], p: &[char]) -> (r: bool)
    ensures
        r == starts_with(cs@, p@),
{
    let r = matches_at(cs, p, 0);
    proof {
        if r {
            assert(cs@.take(p@.len() as int) == cs@.subrange(0, p@.len() as int));
        } else if p@.len() <= cs@.len() {
            assert(cs@.take(p@.len() as int) == cs@.subrange(0, p@.len() as int));
        }
    }
    r
}

/// Whether `s` ends with `p`.
pub fn has_suffix(cs: &[char], p: &[char]) -> (r: bool)
    ensures
        r == ends_with(cs@, p@),
{
    if p.len() > cs.len() {
        return false;
    }
    let r = matches_at(cs, p, cs.len() - p.len());
    proof {
        assert(cs@.skip(cs@.len() - p@.len()) == cs@.subrange(
            cs@.len() - p@.len(),
            cs@.len() as int,
        ));
    }
    r
}

// ---------------------------------------------------------------------------
// Decimal numbers
// ---------------------------------------------------------------------------

pub open spec fn digit_value(c: char) -> nat {
    (c as nat - '0' as nat) as nat
}

/// Decimal value of a run of ASCII digits.
pub open spec fn dec_value(s: Seq<char>) -> nat
    decreases s.len(),
{
    if s.len() == 0 {
        0
    } else {
        dec_value(s.drop_last()) * 10 + digit_value(s.last())
    }
}

pub proof fn lemma_dec_value_prefix_monotone(s: Seq<char>, i: int, j: int)
    requires
        0 <= i <= j <= s.len(),
        all_digits(s),
    ensures
        dec_value(s.take(i)) <= dec_value(s.take(j)),
    decreases j - i,
{
    if i < j {
        lemma_dec_value_prefix_monotone(s, i, j - 1);
        assert(s.take(j).drop_last() == s.take(j - 1));
    }
}

/// Length of the run of ASCII digits at the start of `s`.
pub open spec fn digit_run(s: Seq<char>) -> nat
    decreases s.len(),
{
    if s.len() > 0 && is_digit(s[0]) {
        1 + digit_run(s.drop_first())
    } else {
        0
    }
}

pub proof fn lemma_digit_run(s: Seq<char>, n: int)
    requires
        0 <= n <= s.len(),
        forall|j: int| 0 <= j < n ==> is_digit(#[trigger] s[j]),
        n == s.len() || !is_digit(s[n]),
    ensures
        digit_run(s) == n,
    decreases n,
{
    if n > 0 {
        lemma_digit_run(s.drop_first(), n - 1);
    }
}

/// The value of the leading digits of `cs[from..]` when it fits in `max`;
/// `None` when there are no leading digits or the value exceeds `max`.
pub fn leading_decimal(cs: &[char], from: usize, max: u64) -> (r: Option<u64>)
    requires
        from <= cs.len(),
    ensures
        ({
            let rest = cs@.skip(from as int);
            let run = digit_run(rest);
            match r {
                Some(v) => run > 0 && v == dec_value(rest.take(run as int)) && v <= max,
                None => run == 0 || dec_value(rest.take(run as int)) > max,
            }
        }),
{
    let ghost rest = cs@.skip(from as int);
    let mut i = from;
    let mut acc: u128 = 0;
    let mut overflow = false;
    while i < cs.len() && digit(cs[i])
        invariant
            from <= i <= cs.len(),
            rest == cs@.skip(from as int),
            forall|j: int| 0 <= j < i - from ==> is_digit(#[trigger] rest[j]),
            !overflow ==> acc == dec_value(rest.take(i - from)) && acc <= max,
            overflow ==> dec_value(rest.take(i - from)) > max,
        decreases cs.len() - i,
    {
        let d = (cs[i] as u32 - '0' as u32) as u128;
        proof {
            assert(rest.take(i - from + 1).drop_last() == rest.take(i - from));
            assert(rest.take(i - from + 1).last() == cs@[i as int]);
        }
        if !overflow {
            let next = acc * 10 + d;
            if next > max as u128 {
                overflow = true;
            } else {
                acc = next;
            }
        }
        i += 1;
    }
    proof {
        lemma_digit_run(rest, i - from);
    }
    if i == from || overflow {
        None
    } else {
        Some(acc as u64)
    }
}

} // verus!

verus! {

/// Index of the first element of `s[k..]` that satisfies `p`.
pub open spec fn find_from<A>(s: Seq<A>, p: spec_fn(A) -> bool, k: int) -> Option<int>
    decreases s.len() - k,
{
    if k < 0 || k >= s.len() {
        None
    } else if p(s[k]) {
        Some(k)
    } else {
        find_from(s, p, k + 1)
    }
}

/// Index of the first element of `s` that satisfies `p`.
pub open spec fn find_first<A>(s: Seq<A>, p: spec_fn(A) -> bool) -> Option<int> {
    find_from(s, p, 0)
}

pub proof fn lemma_find_from_result<A>(s: Seq<A>, p: spec_fn(A) -> bool, k: int)
    requires
        0 <= k,
    ensures
        match find_from(s, p, k) {
            Some(i) => k <= i < s.len() && p(s[i]) && forall|j: int| k <= j < i ==> !p(s[j]),
            None => forall|j: int| k <= j < s.len() ==> !p(s[j]),
        },
    decreases s.len() - k,
{
    if k < s.len() && !p(s[k]) {
        lemma_find_from_result(s, p, k + 1);
    }
}

} // verus!

verus! {

/// A new vector with the characters `cs[from..to]`.
pub fn slice_vec(cs: &[char], from: usize, to: usize) -> (v: Vec<char>)
    requires
        from <= to <= cs.len(),
    ensures
        v@ == cs@.subrange(from as int, to as int),
{
    let mut v: Vec<char> = Vec::new();
    let mut i = from;
    while i < to
        invariant
            from <= i <= to <= cs.len(),
            v@ == cs@.subrange(from as int, i as int),
        decreases to - i,
    {
        v.push(cs[i]);
        assert(cs@.subrange(from as int, i + 1) == cs@.subrange(from as int, i as int).push(
            cs@[i as int],
        ));
        i += 1;
    }
    v
}

/// Number of whitespace characters at the start of `s`.
pub open spec fn lead_ws(s: Seq<char>) -> nat
    decreases s.len(),
{
    if s.len() > 0 && is_ws(s[0]) {
        1 + lead_ws(s.drop_first())
    } else {
        0
    }
}

/// Number of whitespace characters at the end of `s`.
pub open spec fn trail_ws(s: Seq<char>) -> nat
    decreases s.len(),
{
    if s.len() > 0 && is_ws(s.last()) {
        1 + trail_ws(s.drop_last())
    } else {
        0
    }
}

/// `str::trim_start`: `s` without its leading whitespace.
pub open spec fn trim_start(s: Seq<char>) -> Seq<char> {
    s.skip(lead_ws(s) as int)
}

/// `str::trim_end`: `s` without its trailing whitespace.
pub open spec fn trim_end(s: Seq<char>) -> Seq<char> {
    s.take(s.len() - trail_ws(s))
}

/// `str::trim`.
pub open spec fn trim(s: Seq<char>) -> Seq<char> {
    trim_end(trim_start(s))
}

pub proof fn lemma_lead_ws(s: Seq<char>, n: int)
    requires
        0 <= n <= s.len(),
        forall|j: int| 0 <= j < n ==> is_ws(#[trigger] s[j]),
        n == s.len() || !is_ws(s[n]),
    ensures
        lead_ws(s) == n,
    decreases n,
{
    if n > 0 {
        lemma_lead_ws(s.drop_first(), n - 1);
    }
}

pub proof fn lemma_trail_ws(s: Seq<char>, n: int)
    requires
        0 <= n <= s.len(),
        forall|j: int| s.len() - n <= j < s.len() ==> is_ws(#[trigger] s[j]),
        n == s.len() || !is_ws(s[s.len() - n - 1]),
    ensures
        trail_ws(s) == n,
    decreases n,
{
    if n > 0 {
        lemma_trail_ws(s.drop_last(), n - 1);
    }
}

pub proof fn lemma_lead_ws_bound(s: Seq<char>)
    ensures
        lead_ws(s) <= s.len(),
    decreases s.len(),
{
    if s.len() > 0 && is_ws(s[0]) {
        lemma_lead_ws_bound(s.drop_first());
    }
}

pub proof fn lemma_trail_ws_bound(s: Seq<char>)
    ensures
        trail_ws(s) <= s.len(),
    decreases s.len(),
{
    if s.len() > 0 && is_ws(s.last()) {
        lemma_trail_ws_bound(s.drop_last());
    }
}

/// `cs[from..]` without leading whitespace.
pub fn trim_start_vec(cs: &[char]) -> (v: Vec<char>)
    ensures
        v@ == trim_start(cs@),
{
    let mut i: usize = 0;
    while i < cs.len() && ws(cs[i])
        invariant
            i <= cs.len(),
            forall|j: int| 0 <= j < i ==> is_ws(#[trigger] cs@[j]),
        decreases cs.len() - i,
    {
        i += 1;
    }
    proof {
        lemma_lead_ws(cs@, i as int);
    }
    slice_vec(cs, i, cs.len())
}

/// `cs` without trailing whitespace.
pub fn trim_end_vec(cs: &[char]) -> (v: Vec<char>)
    ensures
        v@ == trim_end(cs@),
{
    let mut n: usize = 0;
    while n < cs.len() && ws(cs[cs.len() - 1 - n])
        invariant
            n <= cs.len(),
            forall|j: int| cs.len() - n <= j < cs.len() ==> is_ws(#[trigger] cs@[j]),
        decreases cs.len() - n,
    {
        n += 1;
    }
    proof {
        lemma_trail_ws(cs@, n as int);
    }
    slice_vec(cs, 0, cs.len() - n)
}

/// `cs` without leading or trailing whitespace.
pub fn trim_vec(cs: &[char]) -> (v: Vec<char>)
    ensures
        v@ == trim(cs@),
{
    let a = trim_start_vec(cs);
    trim_end_vec(&a)
}

/// The characters of a string literal or other `&str`, as a vector.
pub fn lit(s: &str) -> (v: Vec<char>)
    ensures
        v@ == s@,
{
    chars_of(s)
}

} // verus!

verus! {

/// `s` split at its first `c`: the part before, and the part after when `c` occurs.
pub open spec fn split_first(s: Seq<char>, c: char) -> (Seq<char>, Option<Seq<char>>) {
    match first_index_of(s, c) {
        Some(i) => (s.take(i), Some(s.skip(i + 1))),
        None => (s, None),
    }
}

pub proof fn lemma_split_first_lengths(s: Seq<char>, c: char)
    ensures
        split_first(s, c).0.len() <= s.len(),
        split_first(s, c).1 matches Some(b) ==> split_first(s, c).0.len() + 1 + b.len() == s.len(),
{
    if exists|i: int| 0 <= i < s.len() && s[i] == c {
        let i = choose|i: int| 0 <= i < s.len() && s[i] == c && forall|j: int| 0 <= j < i ==> s[j] != c;
        let w = choose|i: int| 0 <= i < s.len() && s[i] == c;
        lemma_least_index(s, c, w);
        assert(0 <= i < s.len());
    }
}

proof fn lemma_least_index(s: Seq<char>, c: char, w: int)
    requires
        0 <= w < s.len(),
        s[w] == c,
    ensures
        exists|k: int| 0 <= k < s.len() && s[k] == c && forall|j: int| 0 <= j < k ==> s[j] != c,
    decreases w,
{
    if exists|j: int| 0 <= j < w && s[j] == c {
        let j = choose|j: int| 0 <= j < w && s[j] == c;
        lemma_least_index(s, c, j);
    } else {
        assert(0 <= w < s.len() && s[w] == c && forall|j: int| 0 <= j < w ==> s[j] != c);
    }
}

pub open spec fn opt_seq(o: Option<Vec<char>>) -> Option<Seq<char>> {
    match o {
        Some(v) => Some(v@),
        None => None,
    }
}

/// Split `cs` at its first `c`.
pub fn split_first_vec(cs: &[char], c: char) -> (r: (Vec<char>, Option<Vec<char>>))
    ensures
        (r.0@, opt_seq(r.1)) == split_first(cs@, c),
{
    match find_char(cs, c) {
        Some(i) => {
            let a = slice_vec(cs, 0, i);
            let b = slice_vec(cs, i + 1, cs.len());
            (a, Some(b))
        },
        None => (slice_vec(cs, 0, cs.len()), None),
    }
}

pub fn opt_string(o: &Option<Vec<char>>) -> (r: Option<String>)
    ensures
        match r {
            Some(s) => o is Some && s@ == o.unwrap()@,
            None => o is None,
        },
{
    match o {
        Some(v) => Some(string_of(v)),
        None => None,
    }
}

} // verus!

verus! {

pub proof fn lemma_first_occurrence_bound(s: Seq<char>, p: Seq<char>)
    ensures
        first_occurrence(s, p) matches Some(i) ==> occurs_at(s, p, i),
{
    if contains_seq(s, p) {
        let k = choose|k: int| occurs_at(s, p, k) && forall|j: int| 0 <= j < k ==> !occurs_at(s, p, j);
        let w = choose|i: int| occurs_at(s, p, i);
        assert(occurs_at(s, p, w));
        // a first occurrence exists: take the least witness
        lemma_least_occurrence(s, p, w);
    }
}

proof fn lemma_least_occurrence(s: Seq<char>, p: Seq<char>, w: int)
    requires
        occurs_at(s, p, w),
    ensures
        exists|k: int| occurs_at(s, p, k) && forall|j: int| 0 <= j < k ==> !occurs_at(s, p, j),
    decreases w,
{
    if exists|j: int| 0 <= j < w && occurs_at(s, p, j) {
        let j = choose|j: int| 0 <= j < w && occurs_at(s, p, j);
        lemma_least_occurrence(s, p, j);
    } else {
        assert(occurs_at(s, p, w) && forall|j: int| 0 <= j < w ==> !occurs_at(s, p, j));
    }
}

/// Number of bytes in the UTF-8 encoding of `c`.
pub open spec fn utf8_width(c: char) -> nat {
    if (c as u32) <= 0x7f {
        1
    } else if (c as u32) <= 0x7ff {
        2
    } else if (c as u32) <= 0xffff {
        3
    } else {
        4
    }
}

pub proof fn lemma_encode_utf8_append(a: Seq<char>, b: Seq<char>)
    ensures
        vstd::utf8::encode_utf8(a + b) == vstd::utf8::encode_utf8(a) + vstd::utf8::encode_utf8(b),
    decreases a.len(),
{
    if a.len() > 0 {
        assert((a + b).drop_first() == a.drop_first() + b);
        lemma_encode_utf8_append(a.drop_first(), b);
        assert((a + b)[0] == a[0]);
    } else {
        assert(a + b == b);
    }
}

pub proof fn lemma_encode_char_len(c: char)
    ensures
        vstd::utf8::encode_utf8(seq![c]).len() == utf8_width(c),
{
    vstd::utf8::char_is_scalar(c);
    assert(seq![c].drop_first() =~= Seq::<char>::empty());
    assert(vstd::utf8::encode_utf8(seq![c].drop_first()) == Seq::<u8>::empty());
    assert(vstd::utf8::encode_utf8(seq![c]) == vstd::utf8::encode_scalar(c as u32) + Seq::<u8>::empty());
    assert(vstd::utf8::encode_scalar(c as u32).len() == utf8_width(c));
}

/// Number of bytes in the UTF-8 encoding of `cs[..n]`.
pub fn utf8_len_prefix(cs: &[char], n: usize) -> (r: usize)
    requires
        n <= cs.len(),
        vstd::utf8::encode_utf8(cs@).len() <= usize::MAX,
    ensures
        r == vstd::utf8::encode_utf8(cs@.take(n as int)).len(),
{
    let mut total: usize = 0;
    let mut i: usize = 0;
    while i < n
        invariant
            i <= n <= cs.len(),
            total == vstd::utf8::encode_utf8(cs@.take(i as int)).len(),
            vstd::utf8::encode_utf8(cs@).len() <= usize::MAX,
        decreases n - i,
    {
        let c = cs[i];
        let u = c as u32;
        let w: usize = if u <= 0x7f {
            1
        } else if u <= 0x7ff {
            2
        } else if u <= 0xffff {
            3
        } else {
            4
        };
        proof {
            assert(cs@.take(i + 1) == cs@.take(i as int) + seq![c]);
            lemma_encode_utf8_append(cs@.take(i as int), seq![c]);
            lemma_encode_char_len(c);
        }
        proof {
            assert(cs@ == cs@.take(i + 1) + cs@.skip(i + 1));
            lemma_encode_utf8_append(cs@.take(i + 1), cs@.skip(i + 1));
        }
        total = total + w;
        i += 1;
    }
    total
}

} // verus!

verus! {

/// Number of characters of `s` before its first `c` (all of them when there is none).
pub open spec fn run_to(s: Seq<char>, c: char) -> nat
    decreases s.len(),
{
    if s.len() == 0 || s[0] == c {
        0
    } else {
        1 + run_to(s.drop_first(), c)
    }
}

pub proof fn lemma_run_to(s: Seq<char>, c: char, n: int)
    requires
        0 <= n <= s.len(),
        forall|j: int| 0 <= j < n ==> #[trigger] s[j] != c,
        n == s.len() || s[n] == c,
    ensures
        run_to(s, c) == n,
    decreases n,
{
    if n > 0 {
        lemma_run_to(s.drop_first(), c, n - 1);
    }
}

pub proof fn lemma_run_to_bound(s: Seq<char>, c: char)
    ensures
        run_to(s, c) <= s.len(),
        run_to(s, c) < s.len() ==> s[run_to(s, c) as int] == c,
    decreases s.len(),
{
    if s.len() > 0 && s[0] != c {
        lemma_run_to_bound(s.drop_first(), c);
    }
}

/// `s` without one trailing carriage return.
pub open spec fn strip_cr(s: Seq<char>) -> Seq<char> {
    if s.len() > 0 && s.last() == '\r' {
        s.drop_last()
    } else {
        s
    }
}

/// `str::lines`: split at `\n`, dropping a `\r` before it; no empty last line.
pub open spec fn spec_lines(s: Seq<char>) -> Seq<Seq<char>>
    decreases s.len(),
{
    if s.len() == 0 {
        Seq::empty()
    } else {
        let n = run_to(s, '\n');
        if n >= s.len() {
            seq![s]
        } else {
            seq![strip_cr(s.take(n as int))] + spec_lines(s.skip(n as int + 1))
        }
    }
}

/// The lines of `cs`, as `spec_lines` describes them.
pub fn split_lines(cs: &[char]) -> (r: Vec<Vec<char>>)
    ensures
        r@.map_values(|l: Vec<char>| l@) == spec_lines(cs@),
{
    let mut out: Vec<Vec<char>> = Vec::new();
    let mut start: usize = 0;
    assert(cs@.skip(0) == cs@);
    assert(out@.map_values(|l: Vec<char>| l@) + spec_lines(cs@) =~= spec_lines(cs@));
    while start < cs.len()
        invariant
            start <= cs.len(),
            out@.map_values(|l: Vec<char>| l@) + spec_lines(cs@.skip(start as int)) == spec_lines(
                cs@,
            ),
        decreases cs.len() - start,
    {
        let ghost rest = cs@.skip(start as int);
        let mut end = start;
        while end < cs.len() && cs[end] != '\n'
            invariant
                start <= end <= cs.len(),
                forall|j: int| start <= j < end ==> cs@[j] != '\n',
            decreases cs.len() - end,
        {
            end += 1;
        }
        proof {
            assert forall|j: int| 0 <= j < end - start implies #[trigger] rest[j] != '\n' by {
                assert(rest[j] == cs@[start + j]);
            }
            lemma_run_to(rest, '\n', end - start);
        }
        let ghost old_out = out@;
        if end == cs.len() {
            let line = slice_vec(cs, start, end);
            assert(line@ == rest);
            out.push(line);
            proof {
                assert(out@.map_values(|l: Vec<char>| l@) == old_out.map_values(|l: Vec<char>| l@)
                    + seq![rest]);
                assert(cs@.skip(end as int) =~= Seq::<char>::empty());
                assert(spec_lines(rest) == seq![rest]);
            }
            start = end;
        } else {
            let line_end = if end > start && cs[end - 1] == '\r' {
                end - 1
            } else {
                end
            };
            let line = slice_vec(cs, start, line_end);
            assert(line@ == strip_cr(rest.take(end - start)));
            out.push(line);
            proof {
                assert(out@.map_values(|l: Vec<char>| l@) == old_out.map_values(|l: Vec<char>| l@)
                    + seq![line@]);
                assert(rest.skip(end - start + 1) == cs@.skip(end + 1));
                assert(spec_lines(rest) == seq![line@] + spec_lines(cs@.skip(end + 1)));
            }
            start = end + 1;
        }
    }
    proof {
        assert(cs@.skip(start as int) =~= Seq::<char>::empty());
    }
    out
}

} // verus!

verus! {

/// A copy of an optional string.
pub fn clone_opt_string(o: &Option<String>) -> (r: Option<String>)
    ensures
        r == *o,
{
    match o {
        Some(s) => Some(s.clone()),
        None => None,
    }
}

} // verus!

verus! {

pub proof fn lemma_digit_run_all(s: Seq<char>)
    ensures
        all_digits(s) ==> digit_run(s) == s.len(),
        !all_digits(s) ==> digit_run(s) < s.len(),
    decreases s.len(),
{
    if s.len() > 0 {
        lemma_digit_run_all(s.drop_first());
        if is_digit(s[0]) {
            if all_digits(s.drop_first()) {
                assert forall|j: int| 0 <= j < s.len() implies is_digit(#[trigger] s[j]) by {
                    if j > 0 {
                        assert(s[j] == s.drop_first()[j - 1]);
                    }
                }
            } else {
                let j = choose|j: int| 0 <= j < s.drop_first().len() && !is_digit(s.drop_first()[j]);
                assert(!is_digit(s[j + 1]));
            }
        } else {
            assert(!is_digit(s[0]));
        }
    }
}

} // verus!

verus! {

/// Number of bytes of `s` in UTF-8.
pub open spec fn blen(s: Seq<char>) -> nat {
    vstd::utf8::encode_utf8(s).len()
}

/// Byte offset `b` of `s` falls between two characters (or at an end).
pub open spec fn char_boundary(s: Seq<char>, b: int) -> bool {
    exists|n: int| 0 <= n <= s.len() && blen(s.take(n)) == b
}

/// The number of characters of `s` that take up the first `b` bytes.
pub open spec fn chars_at_byte(s: Seq<char>, b: int) -> int {
    choose|n: int| 0 <= n <= s.len() && blen(s.take(n)) == b
}

pub proof fn lemma_blen_step(s: Seq<char>, n: int)
    requires
        0 <= n < s.len(),
    ensures
        blen(s.take(n + 1)) == blen(s.take(n)) + utf8_width(s[n]),
        utf8_width(s[n]) >= 1,
{
    assert(s.take(n + 1) == s.take(n) + seq![s[n]]);
    lemma_encode_utf8_append(s.take(n), seq![s[n]]);
    lemma_encode_char_len(s[n]);
}

pub proof fn lemma_blen_strict(s: Seq<char>, i: int, j: int)
    requires
        0 <= i < j <= s.len(),
    ensures
        blen(s.take(i)) < blen(s.take(j)),
    decreases j - i,
{
    lemma_blen_step(s, j - 1);
    if i < j - 1 {
        lemma_blen_strict(s, i, j - 1);
    }
}

pub proof fn lemma_chars_at_byte(s: Seq<char>, n: int)
    requires
        0 <= n <= s.len(),
    ensures
        char_boundary(s, blen(s.take(n)) as int),
        chars_at_byte(s, blen(s.take(n)) as int) == n,
{
    let b = blen(s.take(n)) as int;
    assert(0 <= n <= s.len() && blen(s.take(n)) == b);
    let k = chars_at_byte(s, b);
    if k < n {
        lemma_blen_strict(s, k, n);
    }
    if n < k {
        lemma_blen_strict(s, n, k);
    }
}

pub proof fn lemma_blen_whole(s: Seq<char>)
    ensures
        blen(s.take(s.len() as int)) == blen(s),
{
    assert(s.take(s.len() as int) == s);
}

/// The number of characters that take up the first `b` bytes of `cs`, or
/// `None` when byte `b` falls inside a character or past the end.
pub fn chars_in_bytes(cs: &[char], b: usize) -> (r: Option<usize>)
    requires
        blen(cs@) <= usize::MAX,
    ensures
        match r {
            Some(n) => n <= cs.len() && blen(cs@.take(n as int)) == b && chars_at_byte(cs@, b as int)
                == n,
            None => !char_boundary(cs@, b as int),
        },
{
    let mut total: usize = 0;
    let mut n: usize = 0;
    while n < cs.len()
        invariant
            n <= cs.len(),
            blen(cs@) <= usize::MAX,
            total == blen(cs@.take(n as int)),
            total <= b,
            forall|j: int| 0 <= j < n ==> blen(cs@.take(j)) < b,
        decreases cs.len() - n,
    {
        if total == b {
            proof {
                lemma_chars_at_byte(cs@, n as int);
            }
            return Some(n);
        }
        let c = cs[n];
        let u = c as u32;
        let w: usize = if u <= 0x7f {
            1
        } else if u <= 0x7ff {
            2
        } else if u <= 0xffff {
            3
        } else {
            4
        };
        proof {
            lemma_blen_step(cs@, n as int);
            lemma_encode_char_len(c);
            assert(cs@ == cs@.take(n + 1) + cs@.skip(n + 1));
            lemma_encode_utf8_append(cs@.take(n + 1), cs@.skip(n + 1));
        }
        let next = total + w;
        if next > b {
            proof {
                assert forall|j: int| 0 <= j <= cs@.len() implies blen(cs@.take(j)) != b by {
                    if j > n {
                        if j > n + 1 {
                            lemma_blen_strict(cs@, n + 1, j);
                        }
                    }
                }
            }
            return None;
        }
        total = next;
        n += 1;
    }
    if total == b {
        proof {
            lemma_chars_at_byte(cs@, n as int);
        }
        Some(n)
    } else {
        proof {
            assert forall|j: int| 0 <= j <= cs@.len() implies blen(cs@.take(j)) != b by {
                if j < n {
                } else {
                    assert(j == n);
                }
            }
        }
        None
    }
}

/// Number of bytes of `cs` in UTF-8.
pub fn byte_len(cs: &[char]) -> (r: usize)
    requires
        blen(cs@) <= usize::MAX,
    ensures
        r == blen(cs@),
{
    let r = utf8_len_prefix(cs, cs.len());
    proof {
        lemma_blen_whole(cs@);
    }
    r
}

} // verus!

verus! {

/// Number of characters of `s` before its first character in `seps` (all of
/// them when there is none).
pub open spec fn run_to_any(s: Seq<char>, seps: Seq<char>) -> nat
    decreases s.len(),
{
    if s.len() == 0 || seps.contains(s[0]) {
        0
    } else {
        1 + run_to_any(s.drop_first(), seps)
    }
}

/// `str::split` on any of `seps`: the pieces between separators, empty
/// ones included, always at least one.
pub open spec fn split_any(s: Seq<char>, seps: Seq<char>) -> Seq<Seq<char>>
    decreases s.len(),
{
    let n = run_to_any(s, seps);
    if n >= s.len() {
        seq![s]
    } else {
        seq![s.take(n as int)] + split_any(s.skip(n as int + 1), seps)
    }
}

pub proof fn lemma_run_to_any(s: Seq<char>, seps: Seq<char>, n: int)
    requires
        0 <= n <= s.len(),
        forall|j: int| 0 <= j < n ==> !seps.contains(#[trigger] s[j]),
        n == s.len() || seps.contains(s[n]),
    ensures
        run_to_any(s, seps) == n,
    decreases n,
{
    if n > 0 {
        lemma_run_to_any(s.drop_first(), seps, n - 1);
    }
}

fn is_sep(seps: &[char], c: char) -> (r: bool)
    ensures
        r == seps@.contains(c),
{
    let mut k: usize = 0;
    while k < seps.len()
        invariant
            0 <= k <= seps.len(),
            forall|j: int| 0 <= j < k ==> seps@[j] != c,
        decreases seps.len() - k,
    {
        if seps[k] == c {
            return true;
        }
        k += 1;
    }
    false
}

/// The pieces of `cs` between the separators in `seps`.
pub fn split_on_any(cs: &[char], seps: &[char]) -> (r: Vec<Vec<char>>)
    ensures
        r@.map_values(|l: Vec<char>| l@) == split_any(cs@, seps@),
{
    let mut out: Vec<Vec<char>> = Vec::new();
    let mut start: usize = 0;
    assert(cs@.skip(0) == cs@);
    assert(out@.map_values(|l: Vec<char>| l@) + split_any(cs@, seps@) =~= split_any(cs@, seps@));
    loop
        invariant_except_break
            out@.map_values(|l: Vec<char>| l@) + split_any(cs@.skip(start as int), seps@) == split_any(
                cs@,
                seps@,
            ),
        invariant
            start <= cs.len(),
        ensures
            out@.map_values(|l: Vec<char>| l@) == split_any(cs@, seps@),
        decreases cs.len() - start,
    {
        let ghost rest = cs@.skip(start as int);
        let mut end = start;
        while end < cs.len() && !is_sep(seps, cs[end])
            invariant
                start <= end <= cs.len(),
                forall|j: int| start <= j < end ==> !seps@.contains(#[trigger] cs@[j]),
            decreases cs.len() - end,
        {
            end += 1;
        }
        proof {
            assert forall|j: int| 0 <= j < end - start implies !seps@.contains(#[trigger] rest[j]) by {
                assert(rest[j] == cs@[start + j]);
            }
            lemma_run_to_any(rest, seps@, end - start);
        }
        let ghost old_out = out@;
        let piece = slice_vec(cs, start, end);
        assert(piece@ == rest.take(end - start));
        out.push(piece);
        proof {
            assert(out@.map_values(|l: Vec<char>| l@) == old_out.map_values(|l: Vec<char>| l@)
                + seq![piece@]);
        }
        if end == cs.len() {
            proof {
                assert(rest.take(end - start) =~= rest);
                assert(split_any(rest, seps@) == seq![rest]);
            }
            break;
        }
        proof {
            assert(rest.skip(end - start + 1) == cs@.skip(end + 1));
            assert(split_any(rest, seps@) == seq![piece@] + split_any(cs@.skip(end + 1), seps@));
        }
        start = end + 1;
    }
    out
}

} // verus!

verus! {

/// `s` with its first occurrence of `p` replaced by `t` (`str::replacen`
/// with a count of one); `s` itself when `p` does not occur.
#[verifier::opaque]
pub open spec fn replace_first(s: Seq<char>, p: Seq<char>, t: Seq<char>) -> Seq<char> {
    match first_occurrence(s, p) {
        Some(i) => s.take(i) + t + s.skip(i + p.len()),
        None => s,
    }
}

proof fn lemma_min_occurrence(s: Seq<char>, p: Seq<char>, k: int) -> (m: int)
    requires
        occurs_at(s, p, k),
    ensures
        occurs_at(s, p, m),
        forall|j: int| 0 <= j < m ==> !occurs_at(s, p, j),
    decreases k,
{
    if exists|j: int| 0 <= j < k && occurs_at(s, p, j) {
        let j = choose|j: int| 0 <= j < k && occurs_at(s, p, j);
        lemma_min_occurrence(s, p, j)
    } else {
        k
    }
}

/// The first occurrence, when there is one, is an occurrence.
pub proof fn lemma_first_occurrence_occurs(s: Seq<char>, p: Seq<char>)
    requires
        contains_seq(s, p),
    ensures
        first_occurrence(s, p) matches Some(i) && occurs_at(s, p, i),
{
    let w = choose|i: int| occurs_at(s, p, i);
    let m = lemma_min_occurrence(s, p, w);
    lemma_first_occurrence(s, p, m);
}

fn splice(cs: &[char], i: usize, end: usize, t: &str) -> (r: String)
    requires
        i <= end <= cs.len(),
    ensures
        r@ == cs@.take(i as int) + t@ + cs@.skip(end as int),
{
    let head = slice_vec(cs, 0, i);
    let tail = slice_vec(cs, end, cs.len());
    let mut out = string_of(&head);
    push_str(&mut out, t);
    let rest = string_of(&tail);
    push_str(&mut out, rest.as_str());
    proof {
        assert(head@ =~= cs@.take(i as int));
        assert(tail@ =~= cs@.skip(end as int));
    }
    out
}

/// `s` with its first `p` replaced by `t`.
#[verifier::rlimit(50)]
pub fn replace_first_str(s: &str, p: &str, t: &str) -> (r: String)
    ensures
        r@ == replace_first(s@, p@, t@),
{
    let cs = chars_of(s);
    let pc = chars_of(p);
    let found = find_seq(&cs, &pc);
    match found {
        None => {
            proof {
                reveal(replace_first);
            }
            let r = string_of(&cs);
            r
        },
        Some(i) => {
            proof {
                lemma_first_occurrence_occurs(cs@, pc@);
                reveal(replace_first);
                assert(occurs_at(cs@, pc@, i as int));
                assert(i + pc@.len() <= cs@.len());
            }
            assert(i + pc.len() <= cs.len());
            let end = i + pc.len();
            splice(&cs, i, end, t)
        },
    }
}

/// Whether `p` occurs in `s`.
pub fn contains_str(s: &str, p: &str) -> (r: bool)
    ensures
        r == contains_seq(s@, p@),
{
    let cs = chars_of(s);
    let pc = chars_of(p);
    find_seq(&cs, &pc).is_some()
}

} // verus!

verus! {

/// Number of bytes of `cs` in UTF-8, counted in a type wide enough for any
/// slice.
pub fn utf8_len_wide(cs: &[char]) -> (r: u128)
    ensures
        r == blen(cs@),
{
    let mut total: u128 = 0;
    let mut i: usize = 0;
    while i < cs.len()
        invariant
            i <= cs.len(),
            total == vstd::utf8::encode_utf8(cs@.take(i as int)).len(),
            total <= 4 * i,
        decreases cs.len() - i,
    {
        let c = cs[i];
        let u = c as u32;
        let w: u128 = if u <= 0x7f {
            1
        } else if u <= 0x7ff {
            2
        } else if u <= 0xffff {
            3
        } else {
            4
        };
        proof {
            assert(cs@.take(i + 1) == cs@.take(i as int) + seq![c]);
            lemma_encode_utf8_append(cs@.take(i as int), seq![c]);
            lemma_encode_char_len(c);
        }
        total = total + w;
        i += 1;
    }
    proof {
        assert(cs@.take(cs@.len() as int) == cs@);
    }
    total
}

} // verus!
