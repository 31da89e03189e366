//! Terminal output of the update command: message lines, colours from
//! `owo-colors`, and the removal of escape sequences for plain output.
use vstd::prelude::*;

use owo_colors::OwoColorize;

use crate::actions::ActionUpdate;
use crate::actions::reference::spec_action_name;
use crate::render::{dec_string, push_decimal};
use crate::text::{blen, char_boundary, chars_at_byte, chars_in_bytes, chars_of, push_str, str_eq};

verus! {

/// `s` in an SGR sequence `code`, ended by `reset`.
pub open spec fn sgr(code: Seq<char>, s: Seq<char>, reset: Seq<char>) -> Seq<char> {
    seq!['\x1b', '['] + code + seq!['m'] + s + seq!['\x1b', '['] + reset + seq!['m']
}

/// `OwoColorize::bold` displayed: the text between `ESC[1m` and `ESC[0m`.
#[verifier::external_body]
fn owo_bold(s: &str) -> (r: String)
    ensures
        r@ == sgr("1"@, s@, "0"@),
{
    format!("{}", s.bold())
}

/// `OwoColorize::cyan` displayed: the text between `ESC[36m` and `ESC[39m`.
#[verifier::external_body]
fn owo_cyan(s: &str) -> (r: String)
    ensures
        r@ == sgr("36"@, s@, "39"@),
{
    format!("{}", s.cyan())
}

/// `OwoColorize::red` displayed: the text between `ESC[31m` and `ESC[39m`.
#[verifier::external_body]
fn owo_red(s: &str) -> (r: String)
    ensures
        r@ == sgr("31"@, s@, "39"@),
{
    format!("{}", s.red())
}

/// `OwoColorize::yellow` displayed: the text between `ESC[33m` and `ESC[39m`.
#[verifier::external_body]
fn owo_yellow(s: &str) -> (r: String)
    ensures
        r@ == sgr("33"@, s@, "39"@),
{
    format!("{}", s.yellow())
}

/// `OwoColorize::green` displayed: the text between `ESC[32m` and `ESC[39m`.
#[verifier::external_body]
fn owo_green(s: &str) -> (r: String)
    ensures
        r@ == sgr("32"@, s@, "39"@),
{
    format!("{}", s.green())
}

/// `OwoColorize::bright_black` displayed: the text between `ESC[90m` and `ESC[39m`.
#[verifier::external_body]
fn owo_bright_black(s: &str) -> (r: String)
    ensures
        r@ == sgr("90"@, s@, "39"@),
{
    format!("{}", s.bright_black())
}

/// How messages are shown.
#[derive(Debug, Clone, Copy, PartialEq, Eq, Structural)]
pub enum Mode {
    Plain,
    Beautiful,
    Json,
}

impl Mode {
    pub fn is_json(self) -> (r: bool)
        ensures
            r == (self == Mode::Json),
    {
        self == Mode::Json
    }
}

/// The mode messages are actually shown in: plain stays plain; the others
/// are beautiful when colour is enabled and their stream is a terminal, plain
/// otherwise.
pub fn effective_mode(mode: Mode, color_enabled: bool, stream_is_terminal: bool) -> (r: Mode)
    ensures
        r == if mode != Mode::Plain && color_enabled && stream_is_terminal {
            Mode::Beautiful
        } else {
            Mode::Plain
        },
{
    match mode {
        Mode::Plain => Mode::Plain,
        _ => if color_enabled && stream_is_terminal {
            Mode::Beautiful
        } else {
            Mode::Plain
        },
    }
}

/// `s` without its CSI sequences: an escape followed by `[` up to and with
/// the first ASCII letter.
pub open spec fn spec_strip_csi(s: Seq<char>) -> Seq<char>
    decreases s.len(),
{
    if s.len() == 0 {
        Seq::empty()
    } else if s.len() >= 2 && s[0] == '\x1b' && s[1] == '[' {
        let rest = s.skip(2);
        let n = letter_run(rest);
        if n < rest.len() {
            spec_strip_csi(rest.skip((n + 1) as int))
        } else {
            Seq::empty()
        }
    } else {
        seq![s[0]] + spec_strip_csi(s.drop_first())
    }
}

/// Number of characters of `s` before its first ASCII letter.
pub open spec fn letter_run(s: Seq<char>) -> nat
    decreases s.len(),
{
    if s.len() == 0 || crate::text::is_alpha(s[0]) {
        0
    } else {
        1 + letter_run(s.drop_first())
    }
}

proof fn lemma_letter_run(s: Seq<char>, n: int)
    requires
        0 <= n <= s.len(),
        forall|j: int| 0 <= j < n ==> !crate::text::is_alpha(#[trigger] s[j]),
        n == s.len() || crate::text::is_alpha(s[n]),
    ensures
        letter_run(s) == n,
    decreases n,
{
    if n > 0 {
        lemma_letter_run(s.drop_first(), n - 1);
    }
}

/// Remove CSI escape sequences.
pub fn strip_ansi(input: &str) -> (r: String)
    ensures
        r@ == spec_strip_csi(input@),
{
    let cs = chars_of(input);
    let mut out = String::new();
    let mut i: usize = 0;
    proof {
        assert(cs@.skip(0) == cs@);
    }
    while i < cs.len()
        invariant
            0 <= i <= cs.len(),
            cs@ == input@,
            spec_strip_csi(input@) == out@ + spec_strip_csi(cs@.skip(i as int)),
        decreases cs.len() - i,
    {
        let ghost s = cs@.skip(i as int);
        if cs[i] == '\x1b' && i + 1 < cs.len() && cs[i + 1] == '[' {
            let mut j = i + 2;
            while j < cs.len() && !crate::text::alpha(cs[j])
                invariant
                    i + 2 <= j <= cs.len(),
                    forall|k: int| i + 2 <= k < j ==> !crate::text::is_alpha(#[trigger] cs@[k]),
                decreases cs.len() - j,
            {
                j += 1;
            }
            proof {
                let rest = s.skip(2);
                assert(rest == cs@.skip(i + 2));
                lemma_letter_run(rest, j - (i + 2));
                if j < cs.len() {
                    assert(rest.skip(j - (i + 2) + 1) == cs@.skip(j + 1));
                }
            }
            if j < cs.len() {
                i = j + 1;
            } else {
                proof {
                    assert(cs@.skip(cs.len() as int).len() == 0);
                }
                i = cs.len();
            }
        } else {
            proof {
                assert(s.drop_first() == cs@.skip(i + 1));
                assert(s[0] == cs@[i as int]);
            }
            out.push(cs[i]);
            proof {
                assert(out@ + spec_strip_csi(cs@.skip(i + 1)) =~= out@.drop_last() + (seq![cs@[i as int]]
                    + spec_strip_csi(cs@.skip(i + 1))));
            }
            i += 1;
        }
    }
    proof {
        assert(cs@.skip(cs.len() as int) =~= Seq::<char>::empty());
    }
    out
}

/// The first twelve bytes of a SHA (all of it when shorter).
pub open spec fn spec_short_sha(sha: Seq<char>) -> Seq<char> {
    sha.take(chars_at_byte(sha, if blen(sha) < 12 { blen(sha) as int } else { 12 }))
}

/// The first twelve bytes of `sha`, or all of it when shorter.
pub fn short_sha(sha: &str) -> (r: String)
    requires
        blen(sha@) <= usize::MAX,
        blen(sha@) > 12 ==> char_boundary(sha@, 12),
    ensures
        r@ == spec_short_sha(sha@),
{
    let cs = chars_of(sha);
    let total = crate::text::byte_len(&cs);
    let cut: usize = if total < 12 {
        total
    } else {
        12
    };
    proof {
        if total <= 12 {
            crate::text::lemma_blen_whole(cs@);
            crate::text::lemma_chars_at_byte(cs@, cs@.len() as int);
        }
    }
    match chars_in_bytes(&cs, cut) {
        Some(n) => crate::text::string_of_range(&cs, 0, n),
        None => {
            assert(false);
            String::new()
        },
    }
}

/// The distinct workflow files of `files`, each at its first occurrence.
pub open spec fn distinct(files: Seq<Seq<char>>) -> Seq<Seq<char>>
    decreases files.len(),
{
    if files.len() == 0 {
        Seq::empty()
    } else {
        let d = distinct(files.drop_last());
        if d.contains(files.last()) {
            d
        } else {
            d.push(files.last())
        }
    }
}

pub open spec fn update_files(updates: Seq<ActionUpdate>) -> Seq<Seq<char>> {
    updates.map_values(|u: ActionUpdate| u.action.file@)
}

pub(crate) proof fn lemma_distinct_len(files: Seq<Seq<char>>)
    ensures
        distinct(files).len() <= files.len(),
    decreases files.len(),
{
    if files.len() > 0 {
        lemma_distinct_len(files.drop_last());
    }
}

/// Number of distinct workflow files among the updates.
pub fn update_file_count(actions: &[ActionUpdate]) -> (r: usize)
    ensures
        r == distinct(update_files(actions@)).len(),
{
    let ghost files = update_files(actions@);
    let mut seen: Vec<&str> = Vec::new();
    let mut i: usize = 0;
    while i < actions.len()
        invariant
            0 <= i <= actions.len(),
            files == update_files(actions@),
            seen@.map_values(|s: &str| s@) == distinct(files.take(i as int)),
        decreases actions.len() - i,
    {
        let file = actions[i].action.file.as_str();
        let ghost d = seen@.map_values(|s: &str| s@);
        proof {
            assert(files.take(i as int + 1).drop_last() == files.take(i as int));
            assert(files.take(i as int + 1).last() == file@);
        }
        let mut k: usize = 0;
        let mut found = false;
        while k < seen.len()
            invariant
                0 <= k <= seen.len(),
                d == seen@.map_values(|s: &str| s@),
                found == exists|j: int| 0 <= j < k && d[j] == file@,
            decreases seen.len() - k,
        {
            proof {
                assert(d[k as int] == seen@[k as int]@);
            }
            if str_eq(seen[k], file) {
                found = true;
            }
            k += 1;
        }
        proof {
            if found {
                let j = choose|j: int| 0 <= j < seen@.len() && d[j] == file@;
                assert(d.contains(file@));
            } else {
                assert(!d.contains(file@)) by {
                    if d.contains(file@) {
                        let j = choose|j: int| 0 <= j < d.len() && d[j] == file@;
                        assert(0 <= j < seen@.len());
                    }
                }
            }
        }
        if !found {
            seen.push(file);
            proof {
                assert(seen@.map_values(|s: &str| s@) =~= d.push(file@));
            }
        }
        i += 1;
    }
    proof {
        assert(files.take(actions@.len() as int) == files);
        lemma_distinct_len(files);
    }
    seen.len()
}

/// The line that reports a SHA pin whose comment names another release:
/// the action (bold), where it is (file in cyan), the pinned ref (red), the
/// comment (yellow) and the expected SHA shortened (green).
pub open spec fn spec_mismatch_line(u: ActionUpdate) -> Seq<char> {
    sgr("1"@, spec_action_name(u.action.owner@, u.action.name@, u.action.path@), "0"@) + " at "@
        + sgr("36"@, u.action.file@, "39"@) + ":"@ + dec_string(u.action.line as nat) + " uses "@
        + sgr("31"@, u.action.current_ref@, "39"@) + match u.action.version_comment {
        Some(vc) => " but says "@ + sgr("33"@, vc@, "39"@),
        None => Seq::empty(),
    } + if u.expected_sha@.len() > 0 {
        "; expected "@ + sgr("32"@, spec_short_sha(u.expected_sha@), "39"@)
    } else {
        Seq::empty()
    }
}

/// Describe a SHA pin whose comment names another release.
pub fn sha_mismatch_line(action: &ActionUpdate) -> (r: String)
    requires
        blen(action.expected_sha@) <= usize::MAX,
        blen(action.expected_sha@) > 12 ==> char_boundary(action.expected_sha@, 12),
    ensures
        r@ == spec_mismatch_line(*action),
{
    proof {
        reveal_strlit(" at ");
        reveal_strlit(":");
        reveal_strlit(" uses ");
        reveal_strlit(" but says ");
        reveal_strlit("; expected ");
    }
    let name = action.action.action_name();
    let b = owo_bold(name.as_str());
    let f = owo_cyan(action.action.file.as_str());
    let c = owo_red(action.action.current_ref.as_str());
    let mut line = b;
    push_str(&mut line, " at ");
    push_str(&mut line, f.as_str());
    push_str(&mut line, ":");
    push_decimal(&mut line, action.action.line as u64);
    push_str(&mut line, " uses ");
    push_str(&mut line, c.as_str());
    let ghost head = line@;
    match &action.action.version_comment {
        Some(vc) => {
            let y = owo_yellow(vc.as_str());
            push_str(&mut line, " but says ");
            push_str(&mut line, y.as_str());
        },
        None => {},
    }
    if chars_of(action.expected_sha.as_str()).len() > 0 {
        let s = short_sha(action.expected_sha.as_str());
        let g = owo_green(s.as_str());
        push_str(&mut line, "; expected ");
        push_str(&mut line, g.as_str());
    }
    line
}

/// The prefix symbols of message lines.
#[derive(Debug, Clone, Copy, PartialEq, Eq, Structural)]
pub enum Level {
    Info,
    Warn,
    Error,
    Debug,
}

/// Writes message lines in one mode.
#[derive(Debug, Clone, Copy)]
pub struct Printer {
    pub mode: Mode,
}

/// A message line: in plain mode the message without escape sequences; else
/// the coloured prefix, a space and the message.
pub open spec fn spec_message(effective: Mode, prefix: Seq<char>, msg: Seq<char>) -> Seq<char> {
    if effective == Mode::Plain {
        spec_strip_csi(msg)
    } else {
        prefix + " "@ + msg
    }
}

pub open spec fn level_prefix(level: Level) -> Seq<char> {
    match level {
        Level::Info => sgr("36"@, "›"@, "39"@),
        Level::Warn => sgr("33"@, "!"@, "39"@),
        Level::Error => sgr("31"@, "✗"@, "39"@),
        Level::Debug => sgr("90"@, "·"@, "39"@),
    }
}

impl Printer {
    pub fn new(mode: Mode) -> (r: Self)
        ensures
            r.mode == mode,
    {
        Printer { mode }
    }

    fn line(&self, msg: &str, level: Level, effective: Mode) -> (r: String)
        ensures
            r@ == spec_message(effective, level_prefix(level), msg@),
    {
        proof {
            reveal_strlit("›");
            reveal_strlit("!");
            reveal_strlit("✗");
            reveal_strlit("·");
            reveal_strlit(" ");
        }
        if effective == Mode::Plain {
            return strip_ansi(msg);
        }
        let mut out = match level {
            Level::Info => owo_cyan("›"),
            Level::Warn => owo_yellow("!"),
            Level::Error => owo_red("✗"),
            Level::Debug => owo_bright_black("·"),
        };
        push_str(&mut out, " ");
        push_str(&mut out, msg);
        out
    }

    /// The line for an informational message in the mode `effective`.
    pub fn info(&self, msg: &str, effective: Mode) -> (r: String)
        ensures
            r@ == spec_message(effective, level_prefix(Level::Info), msg@),
    {
        self.line(msg, Level::Info, effective)
    }

    /// The line for a warning in the mode `effective`.
    pub fn warn(&self, msg: &str, effective: Mode) -> (r: String)
        ensures
            r@ == spec_message(effective, level_prefix(Level::Warn), msg@),
    {
        self.line(msg, Level::Warn, effective)
    }

    /// The line for an error in the mode `effective`.
    pub fn error(&self, msg: &str, effective: Mode) -> (r: String)
        ensures
            r@ == spec_message(effective, level_prefix(Level::Error), msg@),
    {
        self.line(msg, Level::Error, effective)
    }

    /// The line for a debug message in the mode `effective`.
    pub fn debug(&self, msg: &str, effective: Mode) -> (r: String)
        ensures
            r@ == spec_message(effective, level_prefix(Level::Debug), msg@),
    {
        self.line(msg, Level::Debug, effective)
    }
}

} // verus!
