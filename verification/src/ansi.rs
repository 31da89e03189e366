//! Lightweight ANSI styling, switched off when the stream is not a terminal.
use vstd::prelude::*;

use crate::text::push_str;

verus! {

/// Terminal colour helpers: no-op when `enabled` is false.
#[derive(Clone, Copy)]
pub struct Colors {
    pub enabled: bool,
}

/// `s` wrapped in the SGR sequence `code` and a reset, or `s` itself when
/// colours are off.
pub open spec fn painted(enabled: bool, code: Seq<char>, s: Seq<char>) -> Seq<char> {
    if enabled {
        seq!['\x1b', '['] + code + seq!['m'] + s + seq!['\x1b', '[', '0', 'm']
    } else {
        s
    }
}

impl Colors {
    fn paint(self, code: &str, s: &str) -> (r: String)
        ensures
            r@ == painted(self.enabled, code@, s@),
    {
        if self.enabled {
            let mut out = String::new();
            out.push('\x1b');
            out.push('[');
            push_str(&mut out, code);
            out.push('m');
            push_str(&mut out, s);
            out.push('\x1b');
            out.push('[');
            out.push('0');
            out.push('m');
            out
        } else {
            s.to_string()
        }
    }

    /// Workflow names: cyan (`36`).
    pub fn workflow(self, s: &str) -> (r: String)
        ensures
            r@ == painted(self.enabled, "36"@, s@),
    {
        self.paint("36", s)
    }

    /// Action names: yellow (`33`).
    pub fn action(self, s: &str) -> (r: String)
        ensures
            r@ == painted(self.enabled, "33"@, s@),
    {
        self.paint("33", s)
    }

    /// Current pins: bright black (`90`).
    pub fn from(self, s: &str) -> (r: String)
        ensures
            r@ == painted(self.enabled, "90"@, s@),
    {
        self.paint("90", s)
    }

    /// Target pins: green (`32`).
    pub fn to(self, s: &str) -> (r: String)
        ensures
            r@ == painted(self.enabled, "32"@, s@),
    {
        self.paint("32", s)
    }

    /// Warnings: yellow (`33`).
    pub fn warn(self, s: &str) -> (r: String)
        ensures
            r@ == painted(self.enabled, "33"@, s@),
    {
        self.paint("33", s)
    }

    /// Errors: red (`31`).
    pub fn error(self, s: &str) -> (r: String)
        ensures
            r@ == painted(self.enabled, "31"@, s@),
    {
        self.paint("31", s)
    }

    /// Dimmed text (`2`).
    pub fn dim(self, s: &str) -> (r: String)
        ensures
            r@ == painted(self.enabled, "2"@, s@),
    {
        self.paint("2", s)
    }

    /// Bold text (`1`).
    pub fn bold(self, s: &str) -> (r: String)
        ensures
            r@ == painted(self.enabled, "1"@, s@),
    {
        self.paint("1", s)
    }
}

} // verus!
