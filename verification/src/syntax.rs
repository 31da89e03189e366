//! Text of YAML scalars and `uses:` values as the workflow scanner reads them.
use vstd::prelude::*;

use crate::model::Action;
use crate::text::{blen, chars_of, has_prefix, has_suffix, lit, rfind_char, string_of, string_of_range};

verus! {

/// A scalar value found in a workflow, with where it stands.
#[derive(Debug, Clone, PartialEq, Eq)]
pub struct ScalarRange {
    pub text: String,
    pub start_byte: usize,
    pub end_byte: usize,
    pub line: usize,
    pub trailing_comment: String,
}

pub open spec fn is_blank(c: char) -> bool {
    c == ' ' || c == '\t'
}

/// Number of spaces and tabs at the start of `s`.
pub open spec fn lead_blank(s: Seq<char>) -> nat
    decreases s.len(),
{
    if s.len() > 0 && is_blank(s[0]) {
        1 + lead_blank(s.drop_first())
    } else {
        0
    }
}

/// Number of spaces and tabs at the end of `s`.
pub open spec fn trail_blank(s: Seq<char>) -> nat
    decreases s.len(),
{
    if s.len() > 0 && is_blank(s.last()) {
        1 + trail_blank(s.drop_last())
    } else {
        0
    }
}

/// `s` without spaces and tabs at either end.
pub open spec fn trim_blank(s: Seq<char>) -> Seq<char> {
    let t = s.skip(lead_blank(s) as int);
    t.take(t.len() - trail_blank(t))
}

proof fn lemma_lead_blank(s: Seq<char>, n: int)
    requires
        0 <= n <= s.len(),
        forall|j: int| 0 <= j < n ==> is_blank(#[trigger] s[j]),
        n == s.len() || !is_blank(s[n]),
    ensures
        lead_blank(s) == n,
    decreases n,
{
    if n > 0 {
        lemma_lead_blank(s.drop_first(), n - 1);
    }
}

proof fn lemma_trail_blank(s: Seq<char>, n: int)
    requires
        0 <= n <= s.len(),
        forall|j: int| s.len() - n <= j < s.len() ==> is_blank(#[trigger] s[j]),
        n == s.len() || !is_blank(s[s.len() - n - 1]),
    ensures
        trail_blank(s) == n,
    decreases n,
{
    if n > 0 {
        lemma_trail_blank(s.drop_last(), n - 1);
    }
}

fn trim_blank_vec(cs: &Vec<char>) -> (r: Vec<char>)
    ensures
        r@ == trim_blank(cs@),
{
    let mut a: usize = 0;
    while a < cs.len() && (cs[a] == ' ' || cs[a] == '\t')
        invariant
            a <= cs.len(),
            forall|j: int| 0 <= j < a ==> is_blank(#[trigger] cs@[j]),
        decreases cs.len() - a,
    {
        a += 1;
    }
    proof {
        lemma_lead_blank(cs@, a as int);
    }
    let mut b: usize = cs.len();
    while b > a && (cs[b - 1] == ' ' || cs[b - 1] == '\t')
        invariant
            a <= b <= cs.len(),
            forall|j: int| b <= j < cs.len() ==> is_blank(#[trigger] cs@[j]),
        decreases b - a,
    {
        b -= 1;
    }
    proof {
        let t = cs@.skip(a as int);
        assert forall|j: int| t.len() - (cs.len() - b) <= j < t.len() implies is_blank(#[trigger] t[j]) by {
            assert(t[j] == cs@[a + j]);
        }
        if b > a {
            assert(t[t.len() - (cs.len() - b) - 1] == cs@[b - 1]);
        }
        lemma_trail_blank(t, cs.len() - b);
        assert(t.take(t.len() - (cs.len() - b)) =~= cs@.subrange(a as int, b as int));
    }
    crate::text::slice_vec(cs, a, b)
}

/// A scalar's text: without surrounding spaces and tabs, and without one
/// pair of matching quotes around it.
pub open spec fn spec_clean_scalar(value: Seq<char>) -> Seq<char> {
    let t = trim_blank(value);
    if t.len() >= 2 && ((t[0] == '"' && t.last() == '"') || (t[0] == '\'' && t.last() == '\'')) {
        t.subrange(1, t.len() - 1)
    } else {
        t
    }
}

/// The text of a scalar as written: trimmed and unquoted.
pub fn clean_scalar(value: &str) -> (r: String)
    ensures
        r@ == spec_clean_scalar(value@),
{
    let cs = chars_of(value);
    let t = trim_blank_vec(&cs);
    let n = t.len();
    if n >= 2 && ((t[0] == '"' && t[n - 1] == '"') || (t[0] == '\'' && t[n - 1] == '\'')) {
        string_of_range(&t, 1, n - 1)
    } else {
        string_of(&t)
    }
}

/// A remote action reference read from a `uses:` value.
#[derive(Debug, Clone, PartialEq, Eq)]
pub struct ParsedAction {
    pub owner: String,
    pub name: String,
    pub path: String,
    pub git_ref: String,
}

/// The reading of a `uses:` value as `owner/name[/path]@ref`: none for local
/// paths and Docker images, without an `@`, or with an empty owner, name or ref.
pub open spec fn spec_parse_action_ref(v: Seq<char>) -> Option<(Seq<char>, Seq<char>, Seq<char>, Seq<char>)> {
    if crate::text::starts_with(v, "./"@) || crate::text::starts_with(v, "../"@)
        || crate::text::starts_with(v, "docker://"@) || !v.contains('@') {
        None
    } else {
        let at = last_at(v);
        let action = v.take(at);
        let git_ref = v.skip(at + 1);
        let owner = crate::text::split_first(action, '/').0;
        match crate::text::split_first(action, '/').1 {
            None => None,
            Some(rest) => {
                let name = crate::text::split_first(rest, '/').0;
                if owner.len() == 0 || name.len() == 0 || git_ref.len() == 0 {
                    None
                } else {
                    Some((owner, name, action.skip((owner.len() + 1 + name.len()) as int), git_ref))
                }
            },
        }
    }
}

/// The index of the last `@` of `v`.
pub open spec fn last_at(v: Seq<char>) -> int {
    choose|i: int| 0 <= i < v.len() && v[i] == '@' && forall|j: int| i < j < v.len() ==> v[j] != '@'
}

/// Read a `uses:` value as a remote action reference.
pub fn parse_action_ref(value: &str) -> (r: Option<ParsedAction>)
    ensures
        match spec_parse_action_ref(value@) {
            Some((o, n, p, g)) => r matches Some(a) && a.owner@ == o && a.name@ == n && a.path@ == p
                && a.git_ref@ == g,
            None => r is None,
        },
{
    let cs = chars_of(value);
    proof {
        reveal_strlit("./");
        reveal_strlit("../");
        reveal_strlit("docker://");
    }
    if has_prefix(&cs, &lit("./")) || has_prefix(&cs, &lit("../")) || has_prefix(&cs, &lit("docker://")) {
        return None;
    }
    let at = match rfind_char(&cs, '@') {
        Some(i) => i,
        None => {
            proof {
                if value@.contains('@') {
                    let k = choose|k: int| 0 <= k < value@.len() && value@[k] == '@';
                    assert(cs@[k] != '@');
                }
            }
            return None;
        },
    };
    proof {
        assert(value@.contains('@'));
        let k = last_at(cs@);
        assert(0 <= k < cs@.len() && cs@[k] == '@' && forall|j: int| k < j < cs@.len() ==> cs@[j] != '@');
        if k < at {
            assert(cs@[at as int] != '@');
        }
        if at < k {
            assert(cs@[k] != '@');
        }
        assert(k == at);
    }
    let action = crate::text::slice_vec(&cs, 0, at);
    let git_ref = crate::text::slice_vec(&cs, at + 1, cs.len());
    assert(action@ == cs@.take(at as int));
    assert(git_ref@ == cs@.skip(at + 1));
    let (owner, rest) = crate::text::split_first_vec(&action, '/');
    let rest = match rest {
        Some(r) => r,
        None => return None,
    };
    let (name, _) = crate::text::split_first_vec(&rest, '/');
    if owner.len() == 0 || name.len() == 0 || git_ref.len() == 0 {
        return None;
    }
    proof {
        crate::text::lemma_split_first_lengths(action@, '/');
        crate::text::lemma_split_first_lengths(rest@, '/');
    }
    let from = owner.len() + 1 + name.len();
    let path = crate::text::slice_vec(&action, from, action.len());
    Some(
        ParsedAction {
            owner: string_of(&owner),
            name: string_of(&name),
            path: string_of(&path),
            git_ref: string_of(&git_ref),
        },
    )
}

/// Whether a file is a composite action's metadata file.
pub fn is_action_yml(file: &str) -> (r: bool)
    ensures
        r == (crate::text::ends_with(file@, "action.yml"@) || crate::text::ends_with(
            file@,
            "action.yaml"@,
        )),
{
    let cs = chars_of(file);
    has_suffix(&cs, &lit("action.yml")) || has_suffix(&cs, &lit("action.yaml"))
}


/// Number of characters of `set` at the start of `s`.
pub open spec fn lead_in(s: Seq<char>, set: Seq<char>) -> nat
    decreases s.len(),
{
    if s.len() > 0 && set.contains(s[0]) {
        1 + lead_in(s.drop_first(), set)
    } else {
        0
    }
}

/// Number of characters of `set` at the end of `s`.
pub open spec fn trail_in(s: Seq<char>, set: Seq<char>) -> nat
    decreases s.len(),
{
    if s.len() > 0 && set.contains(s.last()) {
        1 + trail_in(s.drop_last(), set)
    } else {
        0
    }
}

/// `str::trim_matches` with a set of characters.
pub open spec fn trim_in(s: Seq<char>, set: Seq<char>) -> Seq<char> {
    let t = s.skip(lead_in(s, set) as int);
    t.take(t.len() - trail_in(t, set))
}

proof fn lemma_lead_in(s: Seq<char>, set: Seq<char>, n: int)
    requires
        0 <= n <= s.len(),
        forall|j: int| 0 <= j < n ==> set.contains(#[trigger] s[j]),
        n == s.len() || !set.contains(s[n]),
    ensures
        lead_in(s, set) == n,
    decreases n,
{
    if n > 0 {
        lemma_lead_in(s.drop_first(), set, n - 1);
    }
}

proof fn lemma_trail_in(s: Seq<char>, set: Seq<char>, n: int)
    requires
        0 <= n <= s.len(),
        forall|j: int| s.len() - n <= j < s.len() ==> set.contains(#[trigger] s[j]),
        n == s.len() || !set.contains(s[s.len() - n - 1]),
    ensures
        trail_in(s, set) == n,
    decreases n,
{
    if n > 0 {
        lemma_trail_in(s.drop_last(), set, n - 1);
    }
}

fn in_set(set: &[char], c: char) -> (r: bool)
    ensures
        r == set@.contains(c),
{
    let mut k: usize = 0;
    while k < set.len()
        invariant
            0 <= k <= set.len(),
            forall|j: int| 0 <= j < k ==> set@[j] != c,
        decreases set.len() - k,
    {
        if set[k] == c {
            return true;
        }
        k += 1;
    }
    false
}

fn trim_in_vec(cs: &[char], set: &[char]) -> (r: Vec<char>)
    ensures
        r@ == trim_in(cs@, set@),
{
    let mut a: usize = 0;
    while a < cs.len() && in_set(set, cs[a])
        invariant
            a <= cs.len(),
            forall|j: int| 0 <= j < a ==> set@.contains(#[trigger] cs@[j]),
        decreases cs.len() - a,
    {
        a += 1;
    }
    proof {
        lemma_lead_in(cs@, set@, a as int);
    }
    let mut b: usize = cs.len();
    while b > a && in_set(set, cs[b - 1])
        invariant
            a <= b <= cs.len(),
            forall|j: int| b <= j < cs.len() ==> set@.contains(#[trigger] cs@[j]),
        decreases b - a,
    {
        b -= 1;
    }
    proof {
        let t = cs@.skip(a as int);
        assert forall|j: int| t.len() - (cs.len() - b) <= j < t.len() implies set@.contains(#[trigger] t[j]) by {
            assert(t[j] == cs@[a + j]);
        }
        if b > a {
            assert(t[t.len() - (cs.len() - b) - 1] == cs@[b - 1]);
        }
        lemma_trail_in(t, set@, cs.len() - b);
        assert(t.take(t.len() - (cs.len() - b)) =~= cs@.subrange(a as int, b as int));
    }
    crate::text::slice_vec(cs, a, b)
}

/// The characters that separate the words of a version comment.
pub open spec fn comment_separators() -> Seq<char> {
    seq![' ', '\t', ',', ';', '(', ')', '[', ']', '{', '}']
}

pub open spec fn dot_or_digit(c: char) -> bool {
    c == '.' || crate::text::is_digit(c)
}

/// A word of a comment that reads as a version: digits and dots starting
/// with a digit, after an optional `v` or `V`.
pub open spec fn without_v(t: Seq<char>) -> Seq<char> {
    if t.len() > 0 && (t[0] == 'v' || t[0] == 'V') {
        t.drop_first()
    } else {
        t
    }
}

pub open spec fn is_version_word(t: Seq<char>) -> bool {
    let rest = without_v(t);
    &&& rest.len() > 0
    &&& crate::text::is_digit(rest[0])
    &&& forall|i: int| 0 <= i < rest.len() ==> dot_or_digit(#[trigger] rest[i])
}

/// The words of a comment, without dots and colons around them.
pub open spec fn comment_words(comment: Seq<char>) -> Seq<Seq<char>> {
    crate::text::split_any(comment, comment_separators()).map_values(
        |w: Seq<char>| trim_in(w, seq!['.', ':']),
    )
}

pub open spec fn reads_as_version() -> spec_fn(Seq<char>) -> bool {
    |w: Seq<char>| is_version_word(w)
}

/// The first word of a comment that reads as a version.
pub open spec fn spec_extract_version(comment: Seq<char>) -> Option<Seq<char>> {
    let ws = comment_words(comment);
    match crate::text::find_first(ws, reads_as_version()) {
        Some(i) => Some(ws[i]),
        None => None,
    }
}

fn version_word(t: &[char]) -> (r: bool)
    ensures
        r == is_version_word(t@),
{
    let from: usize = if t.len() > 0 && (t[0] == 'v' || t[0] == 'V') {
        1
    } else {
        0
    };
    let ghost rest = t@.skip(from as int);
    proof {
        if from == 1 {
            assert(rest == t@.drop_first());
        } else {
            assert(rest == t@);
        }
    }
    if from >= t.len() || !crate::text::digit(t[from]) {
        return false;
    }
    let mut i = from;
    while i < t.len()
        invariant
            from <= i <= t.len(),
            rest == t@.skip(from as int),
            rest == without_v(t@),
            forall|j: int| 0 <= j < i - from ==> dot_or_digit(#[trigger] rest[j]),
        decreases t.len() - i,
    {
        let c = t[i];
        if !(c == '.' || crate::text::digit(c)) {
            proof {
                assert(rest[i - from] == c);
                assert(!dot_or_digit(rest[i - from]));
            }
            return false;
        }
        i += 1;
    }
    true
}

/// The version that a comment names: its first word, without dots and
/// colons around it, that reads as a version.
pub fn extract_version(comment: &str) -> (r: Option<String>)
    ensures
        crate::engine::opt_view(r) == spec_extract_version(comment@),
{
    let cs = chars_of(comment);
    let seps = vec![' ', '\t', ',', ';', '(', ')', '[', ']', '{', '}'];
    let trims = vec!['.', ':'];
    proof {
        assert(seps@ =~= comment_separators());
        assert(trims@ =~= seq!['.', ':']);
    }
    let pieces = crate::text::split_on_any(&cs, &seps);
    let ghost ws = comment_words(comment@);
    let ghost pv = pieces@.map_values(|l: Vec<char>| l@);
    let ghost p = reads_as_version();
    let mut i: usize = 0;
    while i < pieces.len()
        invariant
            0 <= i <= pieces.len(),
            pv == pieces@.map_values(|l: Vec<char>| l@),
            trims@ == seq!['.', ':'],
            ws == pv.map_values(|w: Seq<char>| trim_in(w, seq!['.', ':'])),
            ws == comment_words(comment@),
            p == reads_as_version(),
            crate::text::find_first(ws, p) == crate::text::find_from(ws, p, i as int),
        decreases pieces.len() - i,
    {
        let w = trim_in_vec(&pieces[i], &trims);
        proof {
            assert(ws[i as int] == w@);
        }
        if version_word(&w) {
            proof {
                crate::text::lemma_find_from_result(ws, p, 0);
            }
            return Some(string_of(&w));
        }
        i += 1;
    }
    None
}

/// The version that a comment names: its text without the leading `#`
/// marks and the surrounding blanks; none when nothing is left.
pub open spec fn spec_comment_version(c: Seq<char>) -> Option<Seq<char>> {
    let t = trim_blank(c.skip(lead_in(c, seq!['#']) as int));
    if t.len() == 0 {
        None
    } else {
        spec_extract_version(t)
    }
}

/// Reads the version out of a comment's text (`# v4.2.0` gives `v4.2.0`).
pub fn comment_version(comment: &str) -> (r: Option<String>)
    ensures
        crate::engine::opt_view(r) == spec_comment_version(comment@),
{
    let cs = chars_of(comment);
    let mut n: usize = 0;
    while n < cs.len() && cs[n] == '#'
        invariant
            0 <= n <= cs.len(),
            cs@ == comment@,
            forall|j: int| 0 <= j < n ==> seq!['#'].contains(#[trigger] cs@[j]),
        decreases cs.len() - n,
    {
        proof {
            assert(seq!['#'][0] == '#');
        }
        n += 1;
    }
    proof {
        if n < cs.len() {
            assert(!seq!['#'].contains(cs@[n as int])) by {
                if seq!['#'].contains(cs@[n as int]) {
                    let k = choose|k: int| 0 <= k < 1 && seq!['#'][k] == cs@[n as int];
                }
            }
        }
        lemma_lead_in(cs@, seq!['#'], n as int);
    }
    let rest = crate::text::slice_vec(&cs, n, cs.len());
    let t = trim_blank_vec(&rest);
    if t.len() == 0 {
        None
    } else {
        extract_version(string_of(&t).as_str())
    }
}

/// Where a `uses:` scalar's value starts: its first occurrence in the
/// scalar as written, in bytes after the scalar's start.
pub open spec fn value_start(raw: Seq<char>, start: int) -> int {
    let text = spec_clean_scalar(raw);
    start + blen(raw.take(
        match crate::text::first_occurrence(raw, text) {
            Some(i) => i,
            None => 0,
        },
    ))
}

/// The last `@` of `t` comes before its last byte.
proof fn lemma_at_inside(t: Seq<char>, at: int)
    requires
        0 <= at < t.len(),
        t[at] == '@',
    ensures
        blen(t.take(at)) + 1 <= blen(t),
{
    crate::text::lemma_blen_step(t, at);
    crate::text::lemma_encode_char_len('@');
    if at + 1 < t.len() {
        crate::text::lemma_blen_strict(t, at + 1, t.len() as int);
    }
    crate::text::lemma_blen_whole(t);
}

/// Bytes of the scalar before its cleaned value.
fn value_offset(raw: &str, text: &str) -> (r: usize)
    requires
        blen(raw@) <= usize::MAX,
        text@ == spec_clean_scalar(raw@),
    ensures
        r + blen(text@) <= blen(raw@),
        r == value_start(raw@, 0),
{
    let raw_cs = chars_of(raw);
    let text_cs = chars_of(text);
    proof {
        lemma_clean_scalar_occurs(raw@);
    }
    let i = match crate::text::find_seq(&raw_cs, &text_cs) {
        Some(i) => i,
        None => {
            proof {
                assert(false);
            }
            0
        },
    };
    proof {
        crate::text::lemma_first_occurrence_occurs(raw@, text@);
        lemma_blen_split(raw@, i as int, text@);
    }
    crate::text::utf8_len_prefix(&raw_cs, i)
}

/// Bytes of the value before its last `@`.
fn at_offset(text: &str) -> (r: usize)
    requires
        blen(text@) <= usize::MAX,
        text@.contains('@'),
    ensures
        r == blen(text@.take(last_at(text@))),
        r + 1 <= blen(text@),
{
    let text_cs = chars_of(text);
    let ghost t = text@;
    let at = match rfind_char(&text_cs, '@') {
        Some(k) => k,
        None => {
            proof {
                let k = choose|k: int| 0 <= k < t.len() && t[k] == '@';
                assert(text_cs@[k] == '@');
            }
            0
        },
    };
    proof {
        let k = last_at(t);
        assert(0 <= k < t.len() && t[k] == '@' && forall|j: int| k < j < t.len() ==> t[j] != '@');
        if k < at {
            assert(t[at as int] != '@');
        }
        if at < k {
            assert(t[k] != '@');
        }
        lemma_at_inside(t, at as int);
        crate::text::lemma_blen_whole(t);
    }
    crate::text::utf8_len_prefix(&text_cs, at)
}

/// The ref's span in the file: from after the last `@` of the value to its end.
fn ref_span(raw: &str, text: &str, start: usize) -> (r: (usize, usize))
    requires
        start + blen(raw@) <= usize::MAX,
        text@ == spec_clean_scalar(raw@),
        text@.contains('@'),
    ensures
        r.0 == value_start(raw@, start as int) + blen(text@.take(last_at(text@))) + 1,
        r.1 == value_start(raw@, start as int) + blen(text@),
{
    let leading = value_offset(raw, text);
    let text_cs = chars_of(text);
    let text_len = crate::text::byte_len(&text_cs);
    let before_at = at_offset(text);
    (start + leading + before_at + 1, start + leading + text_len)
}

/// The action that a `uses:` scalar names, located in its file: the
/// scalar as written (`raw`), where it starts (in bytes) and on which line
/// (counted from 0), with the version its comment names. None unless the
/// value reads as a remote action. The ref's span runs from after the last
/// `@` to the end of the value.
pub fn action_at(raw: &str, start: usize, line: usize, comment: Option<String>, file: &str) -> (r: Option<Action>)
    requires
        start + blen(raw@) <= usize::MAX,
        line < usize::MAX,
    ensures
        spec_parse_action_ref(spec_clean_scalar(raw@)) is None ==> r is None,
        spec_parse_action_ref(spec_clean_scalar(raw@)) matches Some((o, n, p, g)) ==> (r matches Some(a) && a.owner@
            == o && a.name@ == n && a.path@ == p && a.current_ref@ == g && a.version_comment == comment
            && a.file@ == file@ && a.line == line + 1 && a.ref_start == value_start(raw@, start as int)
            + blen(spec_clean_scalar(raw@).take(last_at(spec_clean_scalar(raw@)))) + 1 && a.ref_end
            == value_start(raw@, start as int) + blen(spec_clean_scalar(raw@)) && a.new_ref@.len() == 0
            && a.new_version@.len() == 0 && !a.needs_update && !a.sha_mismatch && !a.is_branch
            && !a.is_major),
{
    let text = clean_scalar(raw);
    let parsed = match parse_action_ref(text.as_str()) {
        Some(p) => p,
        None => return None,
    };
    let (ref_start, ref_end) = ref_span(raw, text.as_str(), start);
    Some(
        Action::from_scan(
            parsed.owner,
            parsed.name,
            parsed.path,
            parsed.git_ref,
            comment,
            file.to_string(),
            line + 1,
            ref_start,
            ref_end,
        ),
    )
}

proof fn lemma_lead_blank_le(s: Seq<char>)
    ensures
        lead_blank(s) <= s.len(),
    decreases s.len(),
{
    if s.len() > 0 {
        lemma_lead_blank_le(s.drop_first());
    }
}

proof fn lemma_trail_blank_le(s: Seq<char>)
    ensures
        trail_blank(s) <= s.len(),
    decreases s.len(),
{
    if s.len() > 0 {
        lemma_trail_blank_le(s.drop_last());
    }
}

/// A cleaned scalar is a piece of the scalar as written.
proof fn lemma_clean_scalar_occurs(raw: Seq<char>)
    ensures
        crate::text::contains_seq(raw, spec_clean_scalar(raw)),
{
    let lb = lead_blank(raw) as int;
    lemma_lead_blank_le(raw);
    let t = raw.skip(lb);
    lemma_trail_blank_le(t);
    let tb = trail_blank(t) as int;
    let tt = t.take(t.len() - tb);
    assert(tt =~= raw.subrange(lb, raw.len() - tb));
    let c = spec_clean_scalar(raw);
    if tt.len() >= 2 && ((tt[0] == '"' && tt.last() == '"') || (tt[0] == '\'' && tt.last() == '\'')) {
        assert(c =~= raw.subrange(lb + 1, lb + 1 + c.len()));
        assert(crate::text::occurs_at(raw, c, lb + 1));
    } else {
        assert(crate::text::occurs_at(raw, c, lb));
    }
}

/// The bytes before a piece and the piece's own fit in the whole.
proof fn lemma_blen_split(s: Seq<char>, i: int, p: Seq<char>)
    requires
        crate::text::occurs_at(s, p, i),
    ensures
        blen(s.take(i)) + blen(p) <= blen(s),
{
    assert(s =~= s.take(i) + p + s.skip(i + p.len()));
    crate::text::lemma_encode_utf8_append(s.take(i), p);
    crate::text::lemma_encode_utf8_append(s.take(i) + p, s.skip(i + p.len()));
}

} // verus!
