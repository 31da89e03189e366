//! Raw `uses:` string parsing.
use vstd::prelude::*;

use super::{PinKind, ReferenceKind};
use crate::text::{
    all_hex, chars_of, contains_seq, digit, ends_with, find_seq, has_prefix, has_suffix, hex,
    is_digit, lit, opt_seq, opt_string, slice_vec, split_first, split_first_vec, starts_with,
    string_of,
};

verus! {

/// The result of parsing a single raw `uses:` string.
pub struct ParsedUses {
    pub kind: ReferenceKind,
    pub pin_kind: PinKind,
    /// `None` for local paths and Docker images.
    pub owner: Option<String>,
    /// `None` for local paths and Docker images.
    pub repo: Option<String>,
    /// Sub-path, local path, or Docker image and tag.
    pub subpath: Option<String>,
    /// The `@ref` component, if present.
    pub git_ref: Option<String>,
}

/// The components of a `uses:` value, as values.
pub ghost struct UsesParts {
    pub kind: ReferenceKind,
    pub pin_kind: PinKind,
    pub owner: Option<Seq<char>>,
    pub repo: Option<Seq<char>>,
    pub subpath: Option<Seq<char>>,
    pub git_ref: Option<Seq<char>>,
}

pub open spec fn sv(o: Option<String>) -> Option<Seq<char>> {
    match o {
        Some(s) => Some(s@),
        None => None,
    }
}

pub open spec fn parts_of(p: ParsedUses) -> UsesParts {
    UsesParts {
        kind: p.kind,
        pin_kind: p.pin_kind,
        owner: sv(p.owner),
        repo: sv(p.repo),
        subpath: sv(p.subpath),
        git_ref: sv(p.git_ref),
    }
}

/// All-hex refs: 40 characters are a full SHA, 7 to 39 a short SHA;
/// `v` and a digit is a tag; everything else a branch.
pub open spec fn spec_classify_ref(r: Seq<char>) -> PinKind {
    if r.len() > 0 && all_hex(r) {
        if r.len() == 40 {
            PinKind::FullSha
        } else if 7 <= r.len() <= 39 {
            PinKind::ShortSha
        } else {
            PinKind::Branch
        }
    } else if r.len() >= 2 && r[0] == 'v' && is_digit(r[1]) {
        PinKind::Tag
    } else {
        PinKind::Branch
    }
}

pub open spec fn pin_of(git_ref: Option<Seq<char>>) -> PinKind {
    match git_ref {
        Some(g) => spec_classify_ref(g),
        None => PinKind::Unpinned,
    }
}

/// Contains `.github/workflows/` and ends with `.yml` or `.yaml`.
pub open spec fn spec_is_reusable_workflow_path(path: Seq<char>) -> bool {
    contains_seq(path, ".github/workflows/"@) && (ends_with(path, ".yml"@) || ends_with(
        path,
        ".yaml"@,
    ))
}

/// The components that [`parse_uses`] reads from `raw`.
pub open spec fn spec_parse_uses(raw: Seq<char>) -> UsesParts {
    if starts_with(raw, "docker://"@) {
        UsesParts {
            kind: ReferenceKind::Docker,
            pin_kind: PinKind::Unpinned,
            owner: None,
            repo: None,
            subpath: Some(raw.skip("docker://"@.len() as int)),
            git_ref: None,
        }
    } else if starts_with(raw, "./"@) || starts_with(raw, "../"@) {
        let (path, git_ref) = split_first(raw, '@');
        UsesParts {
            kind: if spec_is_reusable_workflow_path(path) {
                ReferenceKind::ReusableWorkflow
            } else {
                ReferenceKind::LocalAction
            },
            pin_kind: pin_of(git_ref),
            owner: None,
            repo: None,
            subpath: Some(path),
            git_ref,
        }
    } else {
        let (path_part, git_ref) = split_first(raw, '@');
        let (owner, rest) = split_first(path_part, '/');
        match rest {
            None => UsesParts {
                kind: ReferenceKind::Action,
                pin_kind: pin_of(git_ref),
                owner: Some(owner),
                repo: None,
                subpath: None,
                git_ref,
            },
            Some(r) => {
                let (repo, subpath) = split_first(r, '/');
                UsesParts {
                    kind: if subpath is Some && spec_is_reusable_workflow_path(subpath.unwrap()) {
                        ReferenceKind::ReusableWorkflow
                    } else {
                        ReferenceKind::Action
                    },
                    pin_kind: pin_of(git_ref),
                    owner: Some(owner),
                    repo: Some(repo),
                    subpath,
                    git_ref,
                }
            },
        }
    }
}

/// Classify a `@ref` string as a full SHA, short SHA, tag or branch.
pub fn classify_ref(r: &str) -> (k: PinKind)
    ensures
        k == spec_classify_ref(r@),
{
    let cs = chars_of(r);
    classify_ref_chars(&cs)
}

fn classify_ref_chars(cs: &[char]) -> (k: PinKind)
    ensures
        k == spec_classify_ref(cs@),
{
    let mut all = cs.len() > 0;
    let mut i: usize = 0;
    while i < cs.len()
        invariant
            i <= cs.len(),
            all == (cs.len() > 0 && forall|j: int| 0 <= j < i ==> crate::text::is_hex(#[trigger] cs@[j])),
        decreases cs.len() - i,
    {
        if !hex(cs[i]) {
            all = false;
        }
        i += 1;
    }
    if all {
        if cs.len() == 40 {
            return PinKind::FullSha;
        } else if 7 <= cs.len() && cs.len() <= 39 {
            return PinKind::ShortSha;
        } else {
            return PinKind::Branch;
        }
    }
    if cs.len() >= 2 && cs[0] == 'v' && digit(cs[1]) {
        return PinKind::Tag;
    }
    PinKind::Branch
}

fn pin_of_exec(git_ref: &Option<Vec<char>>) -> (k: PinKind)
    ensures
        k == pin_of(opt_seq(*git_ref)),
{
    match git_ref {
        Some(g) => classify_ref_chars(g),
        None => PinKind::Unpinned,
    }
}

/// Split `owner/repo@ref` at the first `@`.
pub fn split_at_ref(s: &str) -> (r: (String, Option<String>))
    ensures
        (r.0@, sv(r.1)) == split_first(s@, '@'),
{
    let cs = chars_of(s);
    let (a, b) = split_first_vec(&cs, '@');
    (string_of(&a), opt_string(&b))
}

/// Whether `path` looks like a reusable-workflow file path.
pub fn is_reusable_workflow_path(path: &str) -> (r: bool)
    ensures
        r == spec_is_reusable_workflow_path(path@),
{
    let cs = chars_of(path);
    reusable_chars(&cs)
}

fn reusable_chars(cs: &[char]) -> (r: bool)
    ensures
        r == spec_is_reusable_workflow_path(cs@),
{
    find_seq(cs, &lit(".github/workflows/")).is_some() && (has_suffix(cs, &lit(".yml"))
        || has_suffix(cs, &lit(".yaml")))
}

/// Parse a raw `uses:` string into its constituent parts.
pub fn parse_uses(raw: &str) -> (p: ParsedUses)
    ensures
        parts_of(p) == spec_parse_uses(raw@),
{
    let cs = chars_of(raw);
    let docker = lit("docker://");
    if has_prefix(&cs, &docker) {
        let image = slice_vec(&cs, docker.len(), cs.len());
        return ParsedUses {
            kind: ReferenceKind::Docker,
            pin_kind: PinKind::Unpinned,
            owner: None,
            repo: None,
            subpath: Some(string_of(&image)),
            git_ref: None,
        };
    }
    if has_prefix(&cs, &lit("./")) || has_prefix(&cs, &lit("../")) {
        let (path, git_ref) = split_first_vec(&cs, '@');
        let kind = if reusable_chars(&path) {
            ReferenceKind::ReusableWorkflow
        } else {
            ReferenceKind::LocalAction
        };
        let pin_kind = pin_of_exec(&git_ref);
        return ParsedUses {
            kind,
            pin_kind,
            owner: None,
            repo: None,
            subpath: Some(string_of(&path)),
            git_ref: opt_string(&git_ref),
        };
    }
    let (path_part, git_ref) = split_first_vec(&cs, '@');
    let pin_kind = pin_of_exec(&git_ref);
    let (owner, rest) = split_first_vec(&path_part, '/');
    match rest {
        None => ParsedUses {
            kind: ReferenceKind::Action,
            pin_kind,
            owner: Some(string_of(&owner)),
            repo: None,
            subpath: None,
            git_ref: opt_string(&git_ref),
        },
        Some(r) => {
            let (repo, subpath) = split_first_vec(&r, '/');
            let kind = match &subpath {
                Some(sp) => if reusable_chars(sp) {
                    ReferenceKind::ReusableWorkflow
                } else {
                    ReferenceKind::Action
                },
                None => ReferenceKind::Action,
            };
            ParsedUses {
                kind,
                pin_kind,
                owner: Some(string_of(&owner)),
                repo: Some(string_of(&repo)),
                subpath: opt_string(&subpath),
                git_ref: opt_string(&git_ref),
            }
        },
    }
}

} // verus!
