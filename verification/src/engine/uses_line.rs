//! Parse and rewrite `uses:` lines in workflow YAML source.
use vstd::prelude::*;

use crate::text::{
    chars_of, find_char, find_seq, first_occurrence, lead_ws, lit, slice_vec, starts_with,
    string_of, trim, trim_end, trim_start, trim_start_vec, trim_vec, trim_end_vec, first_index_of,
    has_prefix,
};
use vstd::utf8::encode_utf8;

verus! {

/// Quoting style used by a parsed `uses:` value.
#[derive(Debug, Clone, Copy, PartialEq, Eq, Structural)]
pub enum QuoteStyle {
    /// The `uses:` value is unquoted.
    Unquoted,
    /// The `uses:` value is wrapped in double quotes.
    Double,
    /// The `uses:` value is wrapped in single quotes.
    Single,
}

/// The `uses:` portion of one workflow source line.
#[derive(Debug, Clone, PartialEq, Eq)]
pub struct UsesLine {
    /// Everything through the whitespace after `uses:` (indent, `- `, key).
    pub head: String,
    /// Unquoted `owner/repo@ref`.
    pub value: String,
    /// Quoting style preserved when rebuilding the source line.
    pub quote: QuoteStyle,
    /// Trailing `# comment` text, without the `#`.
    pub comment: Option<String>,
}

// ---------------------------------------------------------------------------
// Specifications
// ---------------------------------------------------------------------------

/// The comment after the first `#` of `remainder`, trimmed; `None` when absent or empty.
pub open spec fn spec_comment_from_remainder(remainder: Seq<char>) -> Option<Seq<char>> {
    match first_index_of(remainder, '#') {
        None => None,
        Some(h) => {
            let text = trim(remainder.skip(h + 1));
            if text.len() == 0 {
                None
            } else {
                Some(text)
            }
        },
    }
}

/// Value and comment of a quoted value opened by `q`, when the quote is closed.
pub open spec fn spec_quoted(trimmed: Seq<char>, q: char) -> Option<(Seq<char>, Option<Seq<char>>)> {
    if trimmed.len() > 0 && trimmed[0] == q {
        let inner = trimmed.drop_first();
        match first_index_of(inner, q) {
            Some(close) => Some((inner.take(close), spec_comment_from_remainder(inner.skip(close + 1)))),
            None => None,
        }
    } else {
        None
    }
}

/// The value and the comment in the text after `uses:`.
pub open spec fn spec_value_and_comment(rest: Seq<char>) -> (Seq<char>, Option<Seq<char>>) {
    let trimmed = trim(rest);
    let quoted = if trimmed.len() > 0 && trimmed[0] == '"' {
        spec_quoted(trimmed, '"')
    } else {
        spec_quoted(trimmed, '\'')
    };
    match quoted {
        Some(r) => r,
        None => match first_index_of(trimmed, '#') {
            Some(h) => {
                let text = trim(trimmed.skip(h + 1));
                (trim_end(trimmed.take(h)), if text.len() == 0 {
                    None
                } else {
                    Some(text)
                })
            },
            None => (trimmed, None),
        },
    }
}

pub open spec fn spec_quote_of(trimmed: Seq<char>) -> QuoteStyle {
    if trimmed.len() > 0 && trimmed[0] == '"' {
        QuoteStyle::Double
    } else if trimmed.len() > 0 && trimmed[0] == '\'' {
        QuoteStyle::Single
    } else {
        QuoteStyle::Unquoted
    }
}

pub open spec fn spec_parse_uses_value(rest: Seq<char>) -> Option<
    (QuoteStyle, Seq<char>, Option<Seq<char>>),
> {
    let trimmed = trim(rest);
    if trimmed.len() == 0 {
        None
    } else {
        let (value, comment) = spec_value_and_comment(rest);
        if value.len() == 0 {
            None
        } else {
            Some((spec_quote_of(trimmed), value, comment))
        }
    }
}

/// Character index in `line` where the `uses:` value begins.
pub open spec fn spec_value_start(line: Seq<char>) -> Option<int> {
    let indent = lead_ws(line) as int;
    let trimmed = trim_start(line);
    let dash: int = if starts_with(trimmed, "- "@) {
        2
    } else {
        0
    };
    let after_dash = trimmed.skip(dash);
    match first_occurrence(after_dash, "uses:"@) {
        None => None,
        Some(rel) => {
            let after_key = after_dash.skip(rel + 5);
            Some(indent + dash + rel + 5 + lead_ws(after_key))
        },
    }
}

pub open spec fn spec_split(line: Seq<char>) -> Option<
    (Seq<char>, Seq<char>, QuoteStyle, Option<Seq<char>>),
> {
    match spec_value_start(line) {
        None => None,
        Some(vs) => match spec_parse_uses_value(trim_start(line.skip(vs))) {
            None => None,
            Some((q, v, c)) => Some((line.take(vs), v, q, c)),
        },
    }
}

pub open spec fn opt_str_view(o: Option<&str>) -> Option<Seq<char>> {
    match o {
        Some(s) => Some(s@),
        None => None,
    }
}

pub open spec fn spec_format_uses_value(value: Seq<char>, quote: QuoteStyle, comment: Option<Seq<char>>) -> Seq<
    char,
> {
    let quoted = match quote {
        QuoteStyle::Unquoted => value,
        QuoteStyle::Double => seq!['"'] + value + seq!['"'],
        QuoteStyle::Single => seq!['\''] + value + seq!['\''],
    };
    match comment {
        Some(text) => if text.len() > 0 {
            quoted + seq![' ', '#', ' '] + text
        } else {
            quoted
        },
        None => quoted,
    }
}

// ---------------------------------------------------------------------------
// Implementation
// ---------------------------------------------------------------------------

fn opt_vec_string(o: Option<Vec<char>>) -> (r: Option<String>)
    ensures
        crate::engine::reference::sv(r) == crate::text::opt_seq(o),
{
    match o {
        Some(v) => Some(string_of(&v)),
        None => None,
    }
}

/// The comment after the first `#`, trimmed; `None` when absent or empty.
pub fn comment_from_remainder(remainder: &[char]) -> (r: Option<Vec<char>>)
    ensures
        crate::text::opt_seq(r) == spec_comment_from_remainder(remainder@),
{
    let h = match find_char(remainder, '#') {
        Some(h) => h,
        None => return None,
    };
    let after = slice_vec(remainder, h + 1, remainder.len());
    let text = trim_vec(&after);
    if text.len() == 0 {
        None
    } else {
        Some(text)
    }
}

fn quoted(trimmed: &[char], q: char) -> (r: Option<(Vec<char>, Option<Vec<char>>)>)
    ensures
        match r {
            Some((v, c)) => spec_quoted(trimmed@, q) == Some((v@, crate::text::opt_seq(c))),
            None => spec_quoted(trimmed@, q) is None,
        },
{
    if trimmed.len() > 0 && trimmed[0] == q {
        let inner = slice_vec(trimmed, 1, trimmed.len());
        assert(inner@ == trimmed@.drop_first());
        match find_char(&inner, q) {
            Some(close) => {
                let value = slice_vec(&inner, 0, close);
                let remainder = slice_vec(&inner, close + 1, inner.len());
                Some((value, comment_from_remainder(&remainder)))
            },
            None => None,
        }
    } else {
        None
    }
}

fn value_and_comment(rest: &[char]) -> (r: (Vec<char>, Option<Vec<char>>))
    ensures
        (r.0@, crate::text::opt_seq(r.1)) == spec_value_and_comment(rest@),
{
    let trimmed = trim_vec(rest);
    let q = if trimmed.len() > 0 && trimmed[0] == '"' {
        quoted(&trimmed, '"')
    } else {
        quoted(&trimmed, '\'')
    };
    match q {
        Some(r) => r,
        None => match find_char(&trimmed, '#') {
            Some(h) => {
                let before = slice_vec(&trimmed, 0, h);
                let value = trim_end_vec(&before);
                let after = slice_vec(&trimmed, h + 1, trimmed.len());
                let text = trim_vec(&after);
                if text.len() == 0 {
                    (value, None)
                } else {
                    (value, Some(text))
                }
            },
            None => (trimmed, None),
        },
    }
}

/// Parse the value and comment from the text after `uses:`.
pub fn parse_value_and_comment(rest: &str) -> (r: (String, Option<String>))
    ensures
        (r.0@, crate::engine::reference::sv(r.1)) == spec_value_and_comment(rest@),
{
    let cs = chars_of(rest);
    let (v, c) = value_and_comment(&cs);
    (string_of(&v), opt_vec_string(c))
}

fn parse_uses_value(rest: &[char]) -> (r: Option<(QuoteStyle, Vec<char>, Option<Vec<char>>)>)
    ensures
        match r {
            Some((q, v, c)) => spec_parse_uses_value(rest@) == Some(
                (q, v@, crate::text::opt_seq(c)),
            ),
            None => spec_parse_uses_value(rest@) is None,
        },
{
    let trimmed = trim_vec(rest);
    if trimmed.len() == 0 {
        return None;
    }
    let quote = if trimmed[0] == '"' {
        QuoteStyle::Double
    } else if trimmed[0] == '\'' {
        QuoteStyle::Single
    } else {
        QuoteStyle::Unquoted
    };
    let (value, comment) = value_and_comment(rest);
    if value.len() == 0 {
        return None;
    }
    Some((quote, value, comment))
}

/// Character index where the `uses:` value begins.
#[verifier::rlimit(40)]
fn value_start_chars(cs: &[char]) -> (r: Option<usize>)
    ensures
        match r {
            Some(i) => spec_value_start(cs@) == Some(i as int) && i <= cs.len(),
            None => spec_value_start(cs@) is None,
        },
{
    proof {
        crate::text::lemma_lead_ws_bound(cs@);
    }
    let trimmed = trim_start_vec(cs);
    let indent = cs.len() - trimmed.len();
    let dash: usize = if has_prefix(&trimmed, &lit("- ")) {
        2
    } else {
        0
    };
    proof {
        reveal_strlit("- ");
    }
    let after_dash = slice_vec(&trimmed, dash, trimmed.len());
    let ghost ad = trim_start(cs@).skip(dash as int);
    assert(after_dash@ == ad);
    let found = find_seq(&after_dash, &lit("uses:"));
    let rel = match found {
        Some(rel) => rel,
        None => {
            return None;
        },
    };
    proof {
        reveal_strlit("uses:");
        crate::text::lemma_first_occurrence_bound(ad, "uses:"@);
    }
    assert(rel + 5 <= after_dash.len());
    let after_key = slice_vec(&after_dash, rel + 5, after_dash.len());
    proof {
        crate::text::lemma_lead_ws_bound(after_key@);
    }
    let rest = trim_start_vec(&after_key);
    let ws = after_key.len() - rest.len();
    assert(ws == lead_ws(after_key@));
    assert(indent + dash + after_dash.len() == cs.len());
    Some(indent + dash + rel + 5 + ws)
}

/// Byte index in `line` where the `uses:` value begins.
pub fn uses_value_start(line: &str) -> (r: Option<usize>)
    requires
        encode_utf8(line@).len() <= usize::MAX,
    ensures
        match spec_value_start(line@) {
            Some(i) => r == Some(encode_utf8(line@.take(i)).len() as usize),
            None => r is None,
        },
{
    let cs = chars_of(line);
    match value_start_chars(&cs) {
        Some(i) => Some(crate::text::utf8_len_prefix(&cs, i)),
        None => None,
    }
}

/// Split a source line that contains a `uses:` key.
pub fn split(line: &str) -> (r: Option<UsesLine>)
    ensures
        match spec_split(line@) {
            Some((head, value, quote, comment)) => r matches Some(u) && u.head@ == head && u.value@
                == value && u.quote == quote && crate::engine::reference::sv(u.comment) == comment,
            None => r is None,
        },
{
    let cs = chars_of(line);
    let vs = match value_start_chars(&cs) {
        Some(i) => i,
        None => return None,
    };
    let head = slice_vec(&cs, 0, vs);
    let tail = slice_vec(&cs, vs, cs.len());
    let rest = trim_start_vec(&tail);
    match parse_uses_value(&rest) {
        Some((quote, value, comment)) => Some(
            UsesLine {
                head: string_of(&head),
                value: string_of(&value),
                quote,
                comment: opt_vec_string(comment),
            },
        ),
        None => None,
    }
}

fn format_uses_value(value: &str, quote: QuoteStyle, comment: Option<&str>) -> (r: String)
    ensures
        r@ == spec_format_uses_value(value@, quote, opt_str_view(comment)),
{
    let mut quoted = String::new();
    match quote {
        QuoteStyle::Unquoted => {
            crate::text::push_str(&mut quoted, value);
        },
        QuoteStyle::Double => {
            quoted.push('"');
            crate::text::push_str(&mut quoted, value);
            quoted.push('"');
        },
        QuoteStyle::Single => {
            quoted.push('\'');
            crate::text::push_str(&mut quoted, value);
            quoted.push('\'');
        },
    }
    match comment {
        Some(text) => {
            if text.is_empty() {
                quoted
            } else {
                quoted.push(' ');
                quoted.push('#');
                quoted.push(' ');
                crate::text::push_str(&mut quoted, text);
                quoted
            }
        },
        None => quoted,
    }
}

/// Rebuild a full source line with a new action value and comment.
pub fn join(line: &UsesLine, value: &str, comment: Option<&str>) -> (r: String)
    ensures
        r@ == line.head@ + spec_format_uses_value(value@, line.quote, opt_str_view(comment)),
{
    let formatted = format_uses_value(value, line.quote, comment);
    crate::text::concat2(line.head.as_str(), formatted.as_str())
}

} // verus!
