//! Paths written as text, with `/` between components.
use vstd::prelude::*;

use crate::text::chars_of;

verus! {

/// The components of a path: the text between separators, without empty
/// components and without `.`.
pub open spec fn components(p: Seq<char>) -> Seq<Seq<char>>
    decreases p.len(),
{
    if p.len() == 0 {
        Seq::empty()
    } else {
        let n = crate::text::run_to(p, '/');
        let first = p.take(n as int);
        let rest = if n < p.len() {
            components(p.skip((n + 1) as int))
        } else {
            Seq::empty()
        };
        if first.len() == 0 || first == seq!['.'] {
            rest
        } else {
            seq![first] + rest
        }
    }
}

/// The last component of a path, unless the path has none or ends in `..`.
pub open spec fn spec_file_name(p: Seq<char>) -> Option<Seq<char>> {
    let cs = components(p);
    if cs.len() == 0 || cs.last() == seq!['.', '.'] {
        None
    } else {
        Some(cs.last())
    }
}

/// The last component of `path` after its last separator, ignoring trailing
/// separators and `.` components; none when there is none or it is `..`.
pub fn file_name(path: &str) -> (r: Option<String>)
    ensures
        crate::engine::opt_view(r) == spec_file_name(path@),
{
    let cs = chars_of(path);
    let mut last: Option<(usize, usize)> = None;
    let mut start: usize = 0;
    let ghost mut seen: Seq<Seq<char>> = Seq::empty();
    proof {
        assert(cs@.skip(0) =~= cs@);
        assert(seen + components(cs@) =~= components(cs@));
    }
    loop
        invariant_except_break
            components(cs@) == seen + components(cs@.skip(start as int)),
        invariant
            0 <= start <= cs.len(),
            match last {
                Some((a, b)) => a <= b <= cs.len() && seen.len() > 0 && seen.last() == cs@.subrange(
                    a as int,
                    b as int,
                ),
                None => seen.len() == 0,
            },
        ensures
            components(cs@) == seen,
            match last {
                Some((a, b)) => a <= b <= cs.len() && seen.len() > 0 && seen.last() == cs@.subrange(
                    a as int,
                    b as int,
                ),
                None => seen.len() == 0,
            },
        decreases cs.len() - start,
    {
        let end = match crate::text::find_char_from(&cs, start, '/') {
            Some(e) => e,
            None => cs.len(),
        };
        let ghost p = cs@.skip(start as int);
        proof {
            if start < cs.len() {
                crate::text::lemma_run_to(p, '/', end - start);
                assert(p.take(end - start) == cs@.subrange(start as int, end as int));
                if end < cs.len() {
                    assert(p.skip(end - start + 1) == cs@.skip(end + 1));
                }
            }
        }
        let len = end - start;
        let dot = len == 1 && cs[start] == '.';
        let ghost before = seen;
        proof {
            if start == cs.len() {
                assert(p.len() == 0);
            }
            assert(components(p) == (if len > 0 && !dot {
                seq![cs@.subrange(start as int, end as int)]
            } else {
                Seq::<Seq<char>>::empty()
            }) + if end < cs.len() {
                components(cs@.skip(end + 1))
            } else {
                Seq::<Seq<char>>::empty()
            }) by {
                if len == 1 {
                    if dot {
                        assert(cs@.subrange(start as int, end as int) =~= seq!['.']);
                    } else {
                        assert(cs@.subrange(start as int, end as int) != seq!['.']) by {
                            assert(cs@.subrange(start as int, end as int)[0] == cs@[start as int]);
                        }
                    }
                }
            }
        }
        if len > 0 && !dot {
            proof {
                seen = seen.push(cs@.subrange(start as int, end as int));
            }
            last = Some((start, end));
        } else {
            proof {
                if len == 1 {
                    assert(cs@.subrange(start as int, end as int) =~= seq!['.']);
                }
            }
        }
        if end >= cs.len() {
            proof {
                assert(components(cs@) =~= seen);
            }
            break;
        }
        proof {
            assert(components(cs@) =~= seen + components(cs@.skip(end + 1)));
        }
        start = end + 1;
    }
    match last {
        Some((a, b)) => {
            if b - a == 2 && cs[a] == '.' && cs[a + 1] == '.' {
                assert(cs@.subrange(a as int, b as int) =~= seq!['.', '.']);
                None
            } else {
                proof {
                    if seen.last() == seq!['.', '.'] {
                        assert(cs@.subrange(a as int, b as int).len() == 2);
                        assert(cs@.subrange(a as int, b as int)[0] == cs@[a as int]);
                        assert(cs@.subrange(a as int, b as int)[1] == cs@[a + 1]);
                    }
                }
                Some(crate::text::string_of_range(&cs, a, b))
            }
        },
        None => None,
    }
}


/// The components of `path`, as [`components`] describes them.
pub fn components_of(path: &str) -> (r: Vec<Vec<char>>)
    ensures
        r@.map_values(|c: Vec<char>| c@) == components(path@),
{
    let cs = chars_of(path);
    let mut out: Vec<Vec<char>> = Vec::new();
    let mut start: usize = 0;
    proof {
        assert(cs@.skip(0) =~= cs@);
        assert(out@.map_values(|c: Vec<char>| c@) + components(cs@) =~= components(cs@));
    }
    loop
        invariant_except_break
            components(cs@) == out@.map_values(|c: Vec<char>| c@) + components(cs@.skip(start as int)),
        invariant
            0 <= start <= cs.len(),
            cs@ == path@,
        ensures
            components(cs@) == out@.map_values(|c: Vec<char>| c@),
        decreases cs.len() - start,
    {
        let end = match crate::text::find_char_from(&cs, start, '/') {
            Some(e) => e,
            None => cs.len(),
        };
        let ghost p = cs@.skip(start as int);
        proof {
            if start < cs.len() {
                crate::text::lemma_run_to(p, '/', end - start);
                assert(p.take(end - start) == cs@.subrange(start as int, end as int));
                if end < cs.len() {
                    assert(p.skip(end - start + 1) == cs@.skip(end + 1));
                }
            }
        }
        let len = end - start;
        let dot = len == 1 && cs[start] == '.';
        proof {
            if start == cs.len() {
                assert(p.len() == 0);
            }
            assert(components(p) == (if len > 0 && !dot {
                seq![cs@.subrange(start as int, end as int)]
            } else {
                Seq::<Seq<char>>::empty()
            }) + if end < cs.len() {
                components(cs@.skip(end + 1))
            } else {
                Seq::<Seq<char>>::empty()
            }) by {
                if len == 1 {
                    if dot {
                        assert(cs@.subrange(start as int, end as int) =~= seq!['.']);
                    } else {
                        assert(cs@.subrange(start as int, end as int) != seq!['.']) by {
                            assert(cs@.subrange(start as int, end as int)[0] == cs@[start as int]);
                        }
                    }
                }
            }
        }
        let ghost before = out@.map_values(|c: Vec<char>| c@);
        if len > 0 && !dot {
            let piece = crate::text::slice_vec(&cs, start, end);
            out.push(piece);
            proof {
                assert(out@.map_values(|c: Vec<char>| c@) =~= before.push(cs@.subrange(start as int, end as int)));
            }
        }
        if end >= cs.len() {
            proof {
                assert(components(cs@) =~= out@.map_values(|c: Vec<char>| c@));
            }
            break;
        }
        proof {
            assert(components(cs@) =~= out@.map_values(|c: Vec<char>| c@) + components(cs@.skip(end + 1)));
        }
        start = end + 1;
    }
    out
}

} // verus!
