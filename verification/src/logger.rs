//! Message lines of the command-line log: plain output drops escape sequences.
use vstd::prelude::*;

use crate::terminal::Mode;
use crate::text::chars_of;

verus! {

/// `s` without escape sequences: an escape and everything up to and with
/// the next ASCII letter.
pub open spec fn spec_strip_escapes(s: Seq<char>) -> Seq<char>
    decreases s.len(),
{
    spec_strip_from(s, false)
}

/// The same, inside an escape sequence when `in_escape` is set.
pub open spec fn spec_strip_from(s: Seq<char>, in_escape: bool) -> Seq<char>
    decreases s.len(),
{
    if s.len() == 0 {
        Seq::empty()
    } else if in_escape {
        spec_strip_from(s.drop_first(), !crate::text::is_alpha(s[0]))
    } else if s[0] == '\x1b' {
        spec_strip_from(s.drop_first(), true)
    } else {
        seq![s[0]] + spec_strip_from(s.drop_first(), false)
    }
}

/// Remove escape sequences from `input`.
pub fn strip_ansi(input: &str) -> (r: String)
    ensures
        r@ == spec_strip_escapes(input@),
{
    let cs = chars_of(input);
    let mut out = String::new();
    let mut in_escape = false;
    let mut i: usize = 0;
    proof {
        assert(cs@.skip(0) == cs@);
    }
    while i < cs.len()
        invariant
            0 <= i <= cs.len(),
            cs@ == input@,
            spec_strip_escapes(input@) == out@ + spec_strip_from(cs@.skip(i as int), in_escape),
        decreases cs.len() - i,
    {
        let ch = cs[i];
        proof {
            assert(cs@.skip(i as int).drop_first() == cs@.skip(i + 1));
            assert(cs@.skip(i as int)[0] == ch);
        }
        if in_escape {
            if crate::text::alpha(ch) {
                in_escape = false;
            }
        } else if ch == '\x1b' {
            in_escape = true;
        } else {
            let ghost before = out@;
            out.push(ch);
            proof {
                assert(before + (seq![ch] + spec_strip_from(cs@.skip(i + 1), false)) =~= out@
                    + spec_strip_from(cs@.skip(i + 1), false));
            }
        }
        i += 1;
    }
    proof {
        assert(cs@.skip(cs.len() as int) =~= Seq::<char>::empty());
    }
    out
}

/// Writes log lines in one mode.
#[derive(Debug, Clone, Copy)]
pub struct Logger {
    pub mode: Mode,
}

/// A log line: the message without escape sequences in plain mode, as it is otherwise.
pub open spec fn spec_log_line(mode: Mode, msg: Seq<char>) -> Seq<char> {
    if mode == Mode::Plain {
        spec_strip_escapes(msg)
    } else {
        msg
    }
}

impl Logger {
    pub fn new(mode: Mode) -> (r: Self)
        ensures
            r.mode == mode,
    {
        Logger { mode }
    }

    pub fn is_json(&self) -> (r: bool)
        ensures
            r == (self.mode == Mode::Json),
    {
        self.mode == Mode::Json
    }

    fn line(&self, message: &str) -> (r: String)
        ensures
            r@ == spec_log_line(self.mode, message@),
    {
        if self.mode == Mode::Plain {
            strip_ansi(message)
        } else {
            message.to_string()
        }
    }

    /// The line for a debug message.
    pub fn debug(&self, message: &str) -> (r: String)
        ensures
            r@ == spec_log_line(self.mode, message@),
    {
        self.line(message)
    }

    /// The line for an informational message.
    pub fn info(&self, message: &str) -> (r: String)
        ensures
            r@ == spec_log_line(self.mode, message@),
    {
        self.line(message)
    }

    /// The line for a warning.
    pub fn warn(&self, message: &str) -> (r: String)
        ensures
            r@ == spec_log_line(self.mode, message@),
    {
        self.line(message)
    }

    /// The line for an error.
    pub fn error(&self, message: &str) -> (r: String)
        ensures
            r@ == spec_log_line(self.mode, message@),
    {
        self.line(message)
    }
}

} // verus!
