//! Findings about action pins: refs that can still move, and SHA pins whose
//! version comment names a tag that points elsewhere.
use vstd::prelude::*;

pub mod fix;
pub mod report;

use crate::discovery::ActionRef;
use crate::github::spec_is_full_sha;
use crate::github::tags::GitHubTag;
use crate::model::PinStyle;
use crate::render::{dec_string, push_decimal};
use crate::text::{chars_of, digit, push_str, str_eq};

verus! {

/// What a finding is about.
#[derive(Debug, Clone, Copy, PartialEq, Eq, Structural)]
pub enum FindingKind {
    MutableRef,
    ShaCommentMismatch,
}

/// One audit finding.
#[derive(Debug, Clone, PartialEq, Eq)]
pub struct Finding {
    pub id: String,
    pub kind: FindingKind,
    pub action: ActionRef,
    pub message: String,
    pub recommendation: String,
    pub fixable: bool,
    pub expected_sha: Option<String>,
}

pub open spec fn finding_kind_text(k: FindingKind) -> Seq<char> {
    match k {
        FindingKind::MutableRef => "mutable_ref"@,
        FindingKind::ShaCommentMismatch => "sha_comment_mismatch"@,
    }
}

impl Finding {
    /// The machine-readable name of the finding's kind.
    pub fn kind_str(&self) -> (r: &'static str)
        ensures
            r@ == finding_kind_text(self.kind),
    {
        proof {
            reveal_strlit("mutable_ref");
            reveal_strlit("sha_comment_mismatch");
        }
        match self.kind {
            FindingKind::MutableRef => "mutable_ref",
            FindingKind::ShaCommentMismatch => "sha_comment_mismatch",
        }
    }

    /// Every finding is an error.
    pub fn severity(&self) -> (r: &'static str)
        ensures
            r@ == "error"@,
    {
        proof {
            reveal_strlit("error");
        }
        "error"
    }
}

/// How many of `fs` can be fixed.
pub open spec fn count_fixable(fs: Seq<Finding>) -> nat
    decreases fs.len(),
{
    if fs.len() == 0 {
        0
    } else {
        count_fixable(fs.drop_last()) + if fs.last().fixable {
            1nat
        } else {
            0nat
        }
    }
}

/// The number of fixable findings.
pub fn fixable_count(findings: &[Finding]) -> (r: usize)
    ensures
        r == count_fixable(findings@),
{
    let mut n: usize = 0;
    let mut i: usize = 0;
    while i < findings.len()
        invariant
            0 <= i <= findings.len(),
            n == count_fixable(findings@.take(i as int)),
            n <= i,
        decreases findings.len() - i,
    {
        proof {
            assert(findings@.take(i as int + 1).drop_last() == findings@.take(i as int));
        }
        if findings[i].fixable {
            n = n + 1;
        }
        i += 1;
    }
    proof {
        assert(findings@.take(findings@.len() as int) == findings@);
    }
    n
}

/// `v` followed by dots and digits, with at least one digit.
pub open spec fn spec_is_version_tag(s: Seq<char>) -> bool {
    &&& s.len() > 0
    &&& s[0] == 'v'
    &&& s.len() > 1
    &&& exists|i: int| 1 <= i < s.len() && crate::text::is_digit(#[trigger] s[i])
    &&& forall|i: int| 1 <= i < s.len() ==> crate::text::is_digit(#[trigger] s[i]) || s[i] == '.'
}

/// Whether `ref_name` is a version tag such as `v4` or `v1.2.3`.
pub fn is_version_tag(ref_name: &str) -> (r: bool)
    ensures
        r == spec_is_version_tag(ref_name@),
{
    let cs = chars_of(ref_name);
    if cs.len() < 2 || cs[0] != 'v' {
        return false;
    }
    let mut any_digit = false;
    let mut i: usize = 1;
    while i < cs.len()
        invariant
            1 <= i <= cs.len(),
            cs@ == ref_name@,
            forall|j: int| 1 <= j < i ==> crate::text::is_digit(#[trigger] cs@[j]) || cs@[j] == '.',
            any_digit == exists|j: int| 1 <= j < i && crate::text::is_digit(#[trigger] cs@[j]),
        decreases cs.len() - i,
    {
        let c = cs[i];
        if digit(c) {
            any_digit = true;
        } else if c != '.' {
            return false;
        }
        i += 1;
    }
    any_digit
}

/// The pin does not meet the policy: a SHA policy wants a full SHA, a tag
/// policy a full SHA or a version tag.
pub open spec fn spec_violates_policy(ref_name: Seq<char>, pin: PinStyle) -> bool {
    match pin {
        PinStyle::Sha => !spec_is_full_sha(ref_name),
        PinStyle::Tag => !spec_is_full_sha(ref_name) && !spec_is_version_tag(ref_name),
    }
}

/// Whether the reference breaks the pin policy `pin`.
pub fn violates_policy(action_ref: &ActionRef, pin: PinStyle) -> (r: bool)
    ensures
        r == spec_violates_policy(action_ref.ref_name@, pin),
{
    let full = crate::github::is_full_sha(action_ref.ref_name.as_str());
    match pin {
        PinStyle::Sha => !full,
        PinStyle::Tag => !full && !is_version_tag(action_ref.ref_name.as_str()),
    }
}

/// The id of the finding numbered `n`.
pub open spec fn finding_id(n: nat) -> Seq<char> {
    "finding-"@ + dec_string(n)
}

pub fn finding_id_text(n: u64) -> (r: String)
    ensures
        r@ == finding_id(n as nat),
{
    let mut s = String::new();
    push_str(&mut s, "finding-");
    push_decimal(&mut s, n);
    proof {
        reveal_strlit("finding-");
    }
    s
}

/// `f` is the mutable-ref finding numbered `n` for `a`.
pub open spec fn is_mutable_finding(f: Finding, n: nat, a: ActionRef) -> bool {
    &&& f.id@ == finding_id(n)
    &&& f.kind == FindingKind::MutableRef
    &&& f.action == a
    &&& f.message@ == "Action is pinned to a mutable tag"@
    &&& f.recommendation@ == "Pin to a full SHA"@
    &&& f.fixable
    &&& f.expected_sha is None
}

/// `f` is the SHA/comment mismatch finding numbered `n` for `a`, expecting `sha`.
pub open spec fn is_mismatch_finding(f: Finding, n: nat, a: ActionRef, sha: Seq<char>) -> bool {
    &&& f.id@ == finding_id(n)
    &&& f.kind == FindingKind::ShaCommentMismatch
    &&& f.action == a
    &&& f.message@ == "SHA comment does not match the tagged SHA"@
    &&& f.recommendation@ == "Update the pinned SHA to match the version comment"@
    &&& f.fixable
    &&& f.expected_sha matches Some(e) && e@ == sha
}

/// The finding for a reference pinned to something that can move.
pub fn mutable_ref_finding(id: u64, action_ref: &ActionRef) -> (r: Finding)
    ensures
        is_mutable_finding(r, id as nat, *action_ref),
{
    proof {
        reveal_strlit("Action is pinned to a mutable tag");
        reveal_strlit("Pin to a full SHA");
    }
    Finding {
        id: finding_id_text(id),
        kind: FindingKind::MutableRef,
        action: action_ref.duplicate(),
        message: "Action is pinned to a mutable tag".to_string(),
        recommendation: "Pin to a full SHA".to_string(),
        fixable: true,
        expected_sha: None,
    }
}

/// The finding for a SHA pin whose comment's tag points at `expected_sha`.
pub fn sha_comment_mismatch_finding(id: u64, action_ref: &ActionRef, expected_sha: String) -> (r: Finding)
    ensures
        is_mismatch_finding(r, id as nat, *action_ref, expected_sha@),
{
    proof {
        reveal_strlit("SHA comment does not match the tagged SHA");
        reveal_strlit("Update the pinned SHA to match the version comment");
    }
    Finding {
        id: finding_id_text(id),
        kind: FindingKind::ShaCommentMismatch,
        action: action_ref.duplicate(),
        message: "SHA comment does not match the tagged SHA".to_string(),
        recommendation: "Update the pinned SHA to match the version comment".to_string(),
        fixable: true,
        expected_sha: Some(expected_sha),
    }
}

/// Whether a tag is named `name`.
pub open spec fn named(name: Seq<char>) -> spec_fn(GitHubTag) -> bool {
    |t: GitHubTag| t.name@ == name
}

/// The index of the first tag named `name`.
pub open spec fn tag_named(tags: Seq<GitHubTag>, name: Seq<char>) -> Option<int> {
    crate::text::find_first(tags, named(name))
}

/// The SHA that the reference's version comment resolves to, when the
/// comment names one of `tags` and that tag points elsewhere than the pin.
pub open spec fn spec_expected_sha(a: ActionRef, tags: Seq<GitHubTag>) -> Option<Seq<char>> {
    match a.version_comment {
        None => None,
        Some(c) => match tag_named(tags, c@) {
            None => None,
            Some(i) => if tags[i].sha@ == a.ref_name@ {
                None
            } else {
                Some(tags[i].sha@)
            },
        },
    }
}

/// Checks a SHA pin's version comment against the repository's tags.
pub fn verify_sha_comment(action_ref: &ActionRef, tags: &[GitHubTag]) -> (r: Option<String>)
    ensures
        crate::engine::opt_view(r) == spec_expected_sha(*action_ref, tags@),
{
    let comment = match &action_ref.version_comment {
        None => {
            return None;
        },
        Some(c) => c,
    };
    let ghost p = named(comment@);
    let mut i: usize = 0;
    while i < tags.len()
        invariant
            0 <= i <= tags.len(),
            p == named(comment@),
            action_ref.version_comment == Some(*comment),
            crate::text::find_first(tags@, p) == crate::text::find_from(tags@, p, i as int),
        decreases tags.len() - i,
    {
        if str_eq(tags[i].name.as_str(), comment.as_str()) {
            proof {
                crate::text::lemma_find_from_result(tags@, p, 0);
                assert(tag_named(tags@, comment@) == Some(i as int));
            }
            if str_eq(tags[i].sha.as_str(), action_ref.ref_name.as_str()) {
                return None;
            }
            return Some(tags[i].sha.clone());
        }
        i += 1;
    }
    proof {
        assert(tag_named(tags@, comment@) is None);
    }
    None
}

/// Whether checking the reference needs the repository's tags: it meets a
/// SHA policy and has a version comment to check.
pub open spec fn spec_needs_tags(a: ActionRef, pin: PinStyle) -> bool {
    !spec_violates_policy(a.ref_name@, pin) && pin == PinStyle::Sha && spec_is_full_sha(a.ref_name@)
        && a.version_comment is Some
}

pub fn needs_tags(action_ref: &ActionRef, pin: PinStyle) -> (r: bool)
    ensures
        r == spec_needs_tags(*action_ref, pin),
{
    !violates_policy(action_ref, pin) && pin == PinStyle::Sha && crate::github::is_full_sha(
        action_ref.ref_name.as_str(),
    ) && action_ref.version_comment.is_some()
}

/// The finding, if any, for the reference at 0-based `index` under pin
/// policy `pin`; `tags` are the repository's tags, read only when
/// [`needs_tags`] says so.
pub fn audit_reference(index: u64, action_ref: &ActionRef, pin: PinStyle, tags: &[GitHubTag]) -> (r: Option<Finding>)
    requires
        index < u64::MAX,
    ensures
        spec_violates_policy(action_ref.ref_name@, pin) ==> (r matches Some(f) && is_mutable_finding(
            f,
            (index + 1) as nat,
            *action_ref,
        )),
        !spec_violates_policy(action_ref.ref_name@, pin) && !spec_needs_tags(*action_ref, pin) ==> r is None,
        spec_needs_tags(*action_ref, pin) ==> match spec_expected_sha(*action_ref, tags@) {
            Some(sha) => (r matches Some(f) && is_mismatch_finding(f, (index + 1) as nat, *action_ref, sha)),
            None => r is None,
        },
{
    if violates_policy(action_ref, pin) {
        return Some(mutable_ref_finding(index + 1, action_ref));
    }
    if !needs_tags(action_ref, pin) {
        return None;
    }
    match verify_sha_comment(action_ref, tags) {
        Some(sha) => Some(sha_comment_mismatch_finding(index + 1, action_ref, sha)),
        None => None,
    }
}

/// One line of the human-readable audit: `file:line: kind: repo@ref`.
pub open spec fn finding_line(f: Finding) -> Seq<char> {
    f.action.file@ + ":"@ + dec_string(f.action.line as nat) + ": "@ + finding_kind_text(f.kind) + ": "@
        + f.action.repo@ + "@"@ + f.action.ref_name@ + "\n"@
}

pub open spec fn finding_lines(fs: Seq<Finding>) -> Seq<char>
    decreases fs.len(),
{
    if fs.len() == 0 {
        Seq::empty()
    } else {
        finding_lines(fs.drop_last()) + finding_line(fs.last())
    }
}

/// The human-readable audit of `fs`: a line per finding, or a note that
/// there is none.
pub open spec fn findings_text(fs: Seq<Finding>) -> Seq<char> {
    if fs.len() == 0 {
        "No audit findings.\n"@
    } else {
        finding_lines(fs)
    }
}

/// The findings as people read them: one line per finding.
pub fn human_report(findings: &[Finding]) -> (r: String)
    ensures
        r@ == findings_text(findings@),
{
    let mut out = String::new();
    if findings.len() == 0 {
        push_str(&mut out, "No audit findings.\n");
        return out;
    }
    let mut i: usize = 0;
    while i < findings.len()
        invariant
            0 <= i <= findings.len(),
            out@ == finding_lines(findings@.take(i as int)),
        decreases findings.len() - i,
    {
        proof {
            assert(findings@.take(i as int + 1).drop_last() =~= findings@.take(i as int));
        }
        let f = &findings[i];
        let ghost before = out@;
        push_str(&mut out, f.action.file.as_str());
        push_str(&mut out, ":");
        push_decimal(&mut out, f.action.line as u64);
        push_str(&mut out, ": ");
        push_str(&mut out, f.kind_str());
        push_str(&mut out, ": ");
        push_str(&mut out, f.action.repo.as_str());
        push_str(&mut out, "@");
        push_str(&mut out, f.action.ref_name.as_str());
        push_str(&mut out, "\n");
        proof {
            assert(out@ =~= before + finding_line(*f));
        }
        i += 1;
    }
    proof {
        assert(findings@.take(findings@.len() as int) =~= findings@);
    }
    out
}

} // verus!
