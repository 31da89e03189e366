//! The commands' own logic: default inputs and the text they print.
use vstd::prelude::*;

pub mod audit;
pub mod update;

verus! {

/// The inputs to scan: those given, or `.` when recursing and `.github` otherwise.
pub fn default_inputs(inputs: Vec<String>, recursive: bool) -> (r: Vec<String>)
    ensures
        inputs@.len() > 0 ==> r == inputs,
        inputs@.len() == 0 ==> r@.len() == 1 && r@[0]@ == (if recursive {
            "."@
        } else {
            ".github"@
        }),
{
    if inputs.len() == 0 {
        proof {
            reveal_strlit(".");
            reveal_strlit(".github");
        }
        let dir = if recursive {
            "."
        } else {
            ".github"
        };
        let mut v: Vec<String> = Vec::new();
        v.push(dir.to_string());
        v
    } else {
        inputs
    }
}

} // verus!
