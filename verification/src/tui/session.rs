//! Entering and leaving the terminal's raw mode and alternate screen, so
//! that whatever was entered is left again, once.
use vstd::prelude::*;

verus! {

/// Errors that keep the terminal interface from running or from restoring
/// the terminal.
#[derive(Debug, Clone, PartialEq, Eq)]
pub enum TuiError {
    /// Terminal input, drawing, setup or cleanup failed (the error's text).
    Io(String),
}

impl TuiError {
    /// The user-facing text of this error.
    pub fn message(&self) -> (r: String)
        ensures
            self matches TuiError::Io(e) ==> r@ == "terminal I/O error: "@ + e@,
    {
        match self {
            TuiError::Io(e) => {
                let mut s = String::new();
                crate::text::push_str(&mut s, "terminal I/O error: ");
                crate::text::push_str(&mut s, e.as_str());
                proof {
                    reveal_strlit("terminal I/O error: ");
                    assert(s@ =~= "terminal I/O error: "@ + e@);
                }
                s
            },
        }
    }
}

/// A terminal operation, as recorded in an operations' log.
#[derive(Debug, Clone, Copy, PartialEq, Eq, Structural)]
pub enum TermOp {
    EnableRaw,
    EnterAlternate,
    LeaveAlternate,
    DisableRaw,
}

/// How a terminal operation ended: `None` on success, else its error's text.
pub open spec fn outcome(r: Result<(), String>) -> Option<Seq<char>> {
    match r {
        Ok(_) => None,
        Err(e) => Some(e@),
    }
}

/// The four terminal operations, each of which may fail with a message.
/// `log` is the sequence of operations performed so far, each with how it
/// ended; every call adds its own entry. The contracts below are what an
/// implementation promises and nothing here checks: an implementation that
/// keeps no log inherits the default, an empty one, and then only the
/// order of the calls in the session's code backs these statements.
pub trait TerminalOps {
    closed spec fn log(&self) -> Seq<(TermOp, Option<Seq<char>>)> {
        Seq::empty()
    }

    fn enable_raw_mode(&mut self) -> (r: Result<(), String>)
        ensures
            final(self).log() == old(self).log().push((TermOp::EnableRaw, outcome(r))),
    ;

    fn enter_alternate_screen(&mut self) -> (r: Result<(), String>)
        ensures
            final(self).log() == old(self).log().push((TermOp::EnterAlternate, outcome(r))),
    ;

    fn leave_alternate_screen(&mut self) -> (r: Result<(), String>)
        ensures
            final(self).log() == old(self).log().push((TermOp::LeaveAlternate, outcome(r))),
    ;

    fn disable_raw_mode(&mut self) -> (r: Result<(), String>)
        ensures
            final(self).log() == old(self).log().push((TermOp::DisableRaw, outcome(r))),
    ;
}

/// A terminal in raw mode and on the alternate screen, with what of that is
/// still to be undone.
pub struct TerminalSession<O: TerminalOps> {
    pub ops: O,
    pub raw_mode: bool,
    pub alternate_screen: bool,
}

/// The operations that restoring performs: leaving the alternate screen if
/// it was entered, then disabling raw mode if it was enabled.
pub open spec fn restore_ops(raw_mode: bool, alternate_screen: bool) -> Seq<TermOp> {
    (if alternate_screen {
        seq![TermOp::LeaveAlternate]
    } else {
        Seq::empty()
    }) + (if raw_mode {
        seq![TermOp::DisableRaw]
    } else {
        Seq::empty()
    })
}

/// The first failure among logged operations, if any.
pub open spec fn first_failure(entries: Seq<(TermOp, Option<Seq<char>>)>) -> Option<Seq<char>>
    decreases entries.len(),
{
    if entries.len() == 0 {
        None
    } else if entries[0].1 is Some {
        entries[0].1
    } else {
        first_failure(entries.drop_first())
    }
}

pub open spec fn ops_of(entries: Seq<(TermOp, Option<Seq<char>>)>) -> Seq<TermOp> {
    entries.map_values(|x: (TermOp, Option<Seq<char>>)| x.0)
}

impl<O: TerminalOps> TerminalSession<O> {
    /// Enables raw mode, then enters the alternate screen. When enabling raw
    /// mode fails, nothing else is done; when entering the alternate screen
    /// fails, raw mode is disabled again; either way that error is returned.
    pub fn start(&mut self) -> (r: Result<(), String>)
        requires
            !old(self).raw_mode,
            !old(self).alternate_screen,
        ensures
            r is Ok ==> final(self).raw_mode && final(self).alternate_screen,
            r is Ok ==> final(self).ops.log() == old(self).ops.log() + seq![(TermOp::EnableRaw, None), (TermOp::EnterAlternate, None)],
            r is Err ==> !final(self).raw_mode && !final(self).alternate_screen,
            r matches Err(e) ==> (final(self).ops.log() == old(self).ops.log() + seq![(TermOp::EnableRaw, Some(e@))]
                || exists|d: Option<Seq<char>>| final(self).ops.log() == old(self).ops.log() + seq![(TermOp::EnableRaw, None), (TermOp::EnterAlternate, Some(e@)), (TermOp::DisableRaw, d)]),
    {
        let ghost start = self.ops.log();
        match self.ops.enable_raw_mode() {
            Ok(()) => {},
            Err(e) => {
                proof {
                    assert(self.ops.log() =~= start + seq![(TermOp::EnableRaw, Some(e@))]);
                }
                return Err(e);
            },
        }
        self.raw_mode = true;
        match self.ops.enter_alternate_screen() {
            Ok(()) => {},
            Err(e) => {
                let ghost mid = self.ops.log();
                let _ = self.restore();
                proof {
                    let added = self.ops.log().skip(mid.len() as int);
                    assert(ops_of(added) =~= seq![TermOp::DisableRaw]);
                    assert(added.len() == 1);
                    assert(ops_of(added)[0] == added[0].0);
                    let d = added[0].1;
                    assert(added =~= seq![(TermOp::DisableRaw, d)]);
                    assert(self.ops.log() =~= self.ops.log().take(mid.len() as int) + added);
                    assert(self.ops.log() =~= start + seq![
                        (TermOp::EnableRaw, None),
                        (TermOp::EnterAlternate, Some(e@)),
                        (TermOp::DisableRaw, d),
                    ]);
                }
                return Err(e);
            },
        }
        self.alternate_screen = true;
        proof {
            assert(self.ops.log() =~= start + seq![(TermOp::EnableRaw, None), (TermOp::EnterAlternate, None)]);
        }
        Ok(())
    }

    /// A session on `ops`: raw mode enabled, then the alternate screen
    /// entered, as [`Self::start`] does. On failure the operations come back
    /// with the error: enabling raw mode failed and nothing else was done,
    /// or entering the alternate screen failed and raw mode was disabled
    /// again.
    pub fn enter(ops: O) -> (r: Result<Self, (O, String)>)
        ensures
            r matches Ok(s) ==> s.raw_mode && s.alternate_screen && s.ops.log() == ops.log() + seq![
                (TermOp::EnableRaw, None),
                (TermOp::EnterAlternate, None),
            ],
            r matches Err((o, e)) ==> (o.log() == ops.log() + seq![(TermOp::EnableRaw, Some(e@))] || exists|
                d: Option<Seq<char>>,
            |
                o.log() == ops.log() + seq![
                    (TermOp::EnableRaw, None),
                    (TermOp::EnterAlternate, Some(e@)),
                    (TermOp::DisableRaw, d),
                ]),
    {
        let mut session = TerminalSession { ops, raw_mode: false, alternate_screen: false };
        match session.start() {
            Ok(()) => Ok(session),
            Err(e) => Err((session.ops, e)),
        }
    }

    /// Leaves the alternate screen if it was entered and disables raw mode
    /// if it was enabled, each at most once; the first failure is returned,
    /// after both were attempted.
    pub fn restore(&mut self) -> (r: Result<(), String>)
        ensures
            !final(self).raw_mode,
            !final(self).alternate_screen,
            final(self).ops.log().len() >= old(self).ops.log().len(),
            final(self).ops.log().take(old(self).ops.log().len() as int) == old(self).ops.log(),
            ops_of(final(self).ops.log().skip(old(self).ops.log().len() as int)) == restore_ops(
                old(self).raw_mode,
                old(self).alternate_screen,
            ),
            outcome(r) == first_failure(final(self).ops.log().skip(old(self).ops.log().len() as int)),
    {
        let ghost start = self.ops.log();
        let mut first_error: Option<String> = None;
        if self.alternate_screen {
            let r1 = self.ops.leave_alternate_screen();
            proof {
                assert(self.ops.log().skip(start.len() as int) =~= seq![(TermOp::LeaveAlternate, outcome(r1))]);
                assert(first_failure(seq![(TermOp::LeaveAlternate, outcome(r1))].drop_first()) is None);
            }
            match r1 {
                Ok(()) => {},
                Err(e) => {
                    first_error = Some(e);
                },
            }
            self.alternate_screen = false;
        } else {
            assert(self.ops.log().skip(start.len() as int) =~= Seq::<(TermOp, Option<Seq<char>>)>::empty());
        }
        let ghost mid = self.ops.log();
        let ghost a = mid.skip(start.len() as int);
        proof {
            assert(mid.take(start.len() as int) =~= start);
            assert(ops_of(a) =~= (if old(self).alternate_screen { seq![TermOp::LeaveAlternate] } else { Seq::empty() }));
            assert(opt_text(first_error) == first_failure(a));
        }
        let ghost before = first_error;
        if self.raw_mode {
            let r2 = self.ops.disable_raw_mode();
            proof {
                assert(self.ops.log().skip(mid.len() as int) =~= seq![(TermOp::DisableRaw, outcome(r2))]);
                assert(first_failure(seq![(TermOp::DisableRaw, outcome(r2))].drop_first()) is None);
            }
            match r2 {
                Ok(()) => {},
                Err(e) => {
                    if first_error.is_none() {
                        first_error = Some(e);
                    }
                },
            }
            self.raw_mode = false;
        } else {
            assert(self.ops.log().skip(mid.len() as int) =~= Seq::<(TermOp, Option<Seq<char>>)>::empty());
        }
        proof {
            let b = self.ops.log().skip(mid.len() as int);
            let added = self.ops.log().skip(start.len() as int);
            assert(added =~= a + b);
            assert(self.ops.log().take(start.len() as int) =~= start);
            assert(ops_of(b) =~= (if old(self).raw_mode { seq![TermOp::DisableRaw] } else { Seq::empty() }));
            lemma_first_failure_append(a, b);
            assert(ops_of(added) =~= ops_of(a) + ops_of(b));
            assert(opt_text(first_error) == first_failure(added));
        }
        match first_error {
            Some(e) => Err(e),
            None => Ok(()),
        }
    }
}

pub open spec fn opt_text(o: Option<String>) -> Option<Seq<char>> {
    match o {
        Some(s) => Some(s@),
        None => None,
    }
}

proof fn lemma_first_failure_append(a: Seq<(TermOp, Option<Seq<char>>)>, b: Seq<(TermOp, Option<Seq<char>>)>)
    ensures
        first_failure(a + b) == if first_failure(a) is Some {
            first_failure(a)
        } else {
            first_failure(b)
        },
    decreases a.len(),
{
    if a.len() > 0 {
        assert((a + b).drop_first() =~= a.drop_first() + b);
        lemma_first_failure_append(a.drop_first(), b);
    } else {
        assert(a + b =~= b);
    }
}

} // verus!
