//! Decide, for each scanned action, which tag it should move to.
use vstd::prelude::*;

use crate::actions::reference::spec_action_name;
use crate::actions::version::{
    spec_is_likely_sha, spec_parse_version, spec_sha_matches, version_le, version_lt,
};
use crate::model::{
    Action, PinStyle, ResolveConfig, Tag, UpdateMode, Version, is_likely_sha, parse_version,
    sha_matches,
};
use crate::text::{all_hex, chars_of, contains_seq, find_first, find_from, hex, str_eq};

verus! {

/// The release tags known for one repository.
#[derive(Debug, Clone)]
pub struct RepoTags {
    pub owner: String,
    pub name: String,
    pub tags: Vec<Tag>,
}

/// No repository has two entries, as with a map keyed by owner and name.
pub open spec fn repos_distinct(tags: Seq<RepoTags>) -> bool {
    forall|i: int, j: int|
        0 <= i < j < tags.len() ==> !(#[trigger] tags[i].owner@ == #[trigger] tags[j].owner@ && tags[i].name@
            == tags[j].name@)
}

/// What the ref currently written for an action denotes.
#[derive(Clone, Copy, Debug, PartialEq, Eq, Structural)]
pub enum CurrentRefKind {
    Version,
    Sha,
    Branch,
}

/// The update fields of an [`Action`], as values.
pub ghost struct Fields {
    pub expected_sha: Seq<char>,
    pub sha_mismatch: bool,
    pub is_branch: bool,
    pub is_major: bool,
    pub new_ref: Seq<char>,
    pub new_version: Seq<char>,
    pub needs_update: bool,
}

pub open spec fn fields_of(a: Action) -> Fields {
    Fields {
        expected_sha: a.expected_sha@,
        sha_mismatch: a.sha_mismatch,
        is_branch: a.is_branch,
        is_major: a.is_major,
        new_ref: a.new_ref@,
        new_version: a.new_version@,
        needs_update: a.needs_update,
    }
}

/// The fields that identify an action and its place in the source are the same.
pub open spec fn same_identity(a: Action, b: Action) -> bool {
    &&& a.owner == b.owner
    &&& a.name == b.name
    &&& a.path == b.path
    &&& a.current_ref == b.current_ref
    &&& a.version_comment == b.version_comment
    &&& a.file == b.file
    &&& a.line == b.line
    &&& a.ref_start == b.ref_start
    &&& a.ref_end == b.ref_end
}

/// At least seven characters, all hexadecimal digits.
pub open spec fn spec_is_sha_like_ref(value: Seq<char>) -> bool {
    value.len() >= 7 && all_hex(value)
}

pub open spec fn spec_classify(current_ref: Seq<char>, has_comment: bool, skip_branches: bool) -> Option<
    CurrentRefKind,
> {
    if spec_parse_version(current_ref) is Some {
        Some(CurrentRefKind::Version)
    } else if spec_is_likely_sha(current_ref) || (has_comment && spec_is_sha_like_ref(current_ref)) {
        Some(CurrentRefKind::Sha)
    } else if skip_branches {
        None
    } else {
        Some(CurrentRefKind::Branch)
    }
}

/// Whether `version` may be chosen under `mode`, given the current version.
pub open spec fn eligible(version: Version, current: Option<Version>, mode: UpdateMode) -> bool {
    match current {
        Some(v) => match mode {
            UpdateMode::Minor => version.major == v.major,
            UpdateMode::Patch => version.major == v.major && version.minor == v.minor,
            UpdateMode::Major => true,
        },
        None => true,
    }
}

/// Scan of `tags[k..]` keeping the greatest eligible version seen so far;
/// among equal versions the later tag wins.
pub open spec fn best_fold(
    tags: Seq<Tag>,
    current: Option<Version>,
    mode: UpdateMode,
    k: int,
    acc: Option<int>,
) -> Option<int>
    decreases tags.len() - k,
{
    if k < 0 || k >= tags.len() {
        acc
    } else if eligible(tags[k].version, current, mode) && (match acc {
        Some(a) => version_le(tags[a].version, tags[k].version),
        None => true,
    }) {
        best_fold(tags, current, mode, k + 1, Some(k))
    } else {
        best_fold(tags, current, mode, k + 1, acc)
    }
}

/// Index of the tag with the greatest eligible version (the last one on ties).
pub open spec fn spec_best_target(tags: Seq<Tag>, current: Option<Version>, mode: UpdateMode) -> Option<
    int,
> {
    best_fold(tags, current, mode, 0, None)
}

pub open spec fn spec_style_matches(current_ref: Seq<char>, target: Tag, style: PinStyle) -> bool {
    match style {
        PinStyle::Tag => current_ref == target.name@,
        PinStyle::Sha => spec_sha_matches(current_ref, target.sha@),
    }
}

pub open spec fn excluded(a: Action, excludes: Seq<String>) -> bool {
    exists|j: int|
        0 <= j < excludes.len() && contains_seq(
            spec_action_name(a.owner@, a.name@, a.path@),
            #[trigger] excludes[j]@,
        )
}

pub open spec fn repo_is(owner: Seq<char>, name: Seq<char>) -> spec_fn(RepoTags) -> bool {
    |r: RepoTags| r.owner@ == owner && r.name@ == name
}

pub open spec fn tag_named(name: Seq<char>) -> spec_fn(Tag) -> bool {
    |t: Tag| t.name@ == name
}

pub open spec fn tag_for_ref(current_ref: Seq<char>) -> spec_fn(Tag) -> bool {
    |t: Tag| t.name@ == current_ref || spec_sha_matches(current_ref, t.sha@)
}

/// The tag named by the version comment, if any.
pub open spec fn comment_tag(tags: Seq<Tag>, comment: Option<String>) -> Option<int> {
    match comment {
        Some(c) => find_first(tags, tag_named(c@)),
        None => None,
    }
}

/// Version of the written ref, or failing that of the version comment.
pub open spec fn current_version(a: Action) -> Option<Version> {
    match spec_parse_version(a.current_ref@) {
        Some(v) => Some(v),
        None => match a.version_comment {
            Some(c) => spec_parse_version(c@),
            None => None,
        },
    }
}

pub open spec fn spec_expected_sha(
    tags: Seq<Tag>,
    ct: Option<int>,
    current_ref: Seq<char>,
    ctx: CurrentRefKind,
) -> Seq<char> {
    match ct {
        Some(i) => tags[i].sha@,
        None => match find_first(tags, tag_for_ref(current_ref)) {
            Some(i) => tags[i].sha@,
            None => if ctx == CurrentRefKind::Sha {
                current_ref
            } else {
                Seq::empty()
            },
        },
    }
}

/// The update fields that [`resolve`] gives `a`.
pub open spec fn resolved_fields(a: Action, index: Seq<RepoTags>, config: ResolveConfig) -> Fields {
    let f = fields_of(a);
    let cur = a.current_ref@;
    if excluded(a, config.excludes@) {
        f
    } else {
        match spec_classify(cur, a.version_comment is Some, config.skip_branches) {
            None => f,
            Some(ctx) => match find_first(index, repo_is(a.owner@, a.name@)) {
                None => f,
                Some(ri) => {
                    let tags = index[ri].tags@;
                    if tags.len() == 0 {
                        f
                    } else {
                        let ct = comment_tag(tags, a.version_comment);
                        let expected = spec_expected_sha(tags, ct, cur, ctx);
                        let mismatch = ctx == CurrentRefKind::Sha && (match ct {
                            Some(i) => !spec_sha_matches(cur, tags[i].sha@),
                            None => false,
                        });
                        let f2 = Fields { expected_sha: expected, sha_mismatch: mismatch, ..f };
                        let cv = current_version(a);
                        match spec_best_target(tags, cv, config.mode) {
                            None => f2,
                            Some(ti) => {
                                let t = tags[ti];
                                if cv is Some && version_lt(t.version, cv.unwrap()) {
                                    f2
                                } else if !mismatch && spec_style_matches(cur, t, config.style) {
                                    f2
                                } else {
                                    Fields {
                                        expected_sha: expected,
                                        sha_mismatch: mismatch,
                                        is_branch: ctx == CurrentRefKind::Branch,
                                        is_major: match cv {
                                            Some(c) => t.version.major > c.major,
                                            None => false,
                                        },
                                        new_ref: match config.style {
                                            PinStyle::Sha => t.sha@,
                                            PinStyle::Tag => t.name@,
                                        },
                                        new_version: t.name@,
                                        needs_update: true,
                                    }
                                }
                            },
                        }
                    }
                },
            },
        }
    }
}

/// Whether `value` could be an abbreviated SHA (seven or more hex digits).
pub fn is_sha_like_ref(value: &str) -> (r: bool)
    ensures
        r == spec_is_sha_like_ref(value@),
{
    let cs = chars_of(value);
    if cs.len() < 7 {
        return false;
    }
    let mut i: usize = 0;
    while i < cs.len()
        invariant
            i <= cs.len(),
            cs@ == value@,
            forall|j: int| 0 <= j < i ==> crate::text::is_hex(#[trigger] cs@[j]),
        decreases cs.len() - i,
    {
        if !hex(cs[i]) {
            return false;
        }
        i += 1;
    }
    true
}

/// What the written ref of `action` denotes; `None` for a branch when branches are skipped.
pub fn classify(action: &Action, skip_branches: bool) -> (r: Option<CurrentRefKind>)
    ensures
        r == spec_classify(action.current_ref@, action.version_comment is Some, skip_branches),
{
    if parse_version(action.current_ref.as_str()).is_some() {
        return Some(CurrentRefKind::Version);
    }
    if is_likely_sha(action.current_ref.as_str()) || (action.version_comment.is_some()
        && is_sha_like_ref(action.current_ref.as_str())) {
        return Some(CurrentRefKind::Sha);
    }
    if skip_branches {
        return None;
    }
    Some(CurrentRefKind::Branch)
}

fn eligible_exec(version: Version, current: Option<Version>, mode: UpdateMode) -> (r: bool)
    ensures
        r == eligible(version, current, mode),
{
    match current {
        Some(v) => match mode {
            UpdateMode::Minor => version.major == v.major,
            UpdateMode::Patch => version.major == v.major && version.minor == v.minor,
            UpdateMode::Major => true,
        },
        None => true,
    }
}

/// The tag with the greatest version allowed by `mode`; the last such tag on ties.
pub fn best_target<'a>(tags: &'a [Tag], current: Option<Version>, mode: UpdateMode) -> (r: Option<
    &'a Tag,
>)
    ensures
        r is Some <==> spec_best_target(tags@, current, mode) is Some,
        r matches Some(t) ==> *t == tags@[spec_best_target(tags@, current, mode).unwrap()],
        spec_best_target(tags@, current, mode) matches Some(i) ==> 0 <= i < tags@.len(),
{
    let mut best: Option<usize> = None;
    let mut k: usize = 0;
    while k < tags.len()
        invariant
            k <= tags.len(),
            best matches Some(b) ==> b < k,
            spec_best_target(tags@, current, mode) == best_fold(
                tags@,
                current,
                mode,
                k as int,
                match best {
                    Some(b) => Some(b as int),
                    None => None,
                },
            ),
        decreases tags.len() - k,
    {
        let t = &tags[k];
        if eligible_exec(t.version, current, mode) {
            let take = match best {
                Some(b) => {
                    let a = tags[b].version;
                    a.lt(&t.version) || a == t.version
                },
                None => true,
            };
            if take {
                best = Some(k);
            }
        }
        k += 1;
    }
    proof {
        lemma_best_fold_in_range(tags@, current, mode, k as int, match best {
            Some(b) => Some(b as int),
            None => None,
        });
    }
    match best {
        Some(b) => Some(&tags[b]),
        None => None,
    }
}

proof fn lemma_best_fold_in_range(
    tags: Seq<Tag>,
    current: Option<Version>,
    mode: UpdateMode,
    k: int,
    acc: Option<int>,
)
    requires
        0 <= k,
        acc matches Some(a) ==> 0 <= a < tags.len(),
    ensures
        best_fold(tags, current, mode, k, acc) matches Some(i) ==> 0 <= i < tags.len(),
    decreases tags.len() - k,
{
    if k < tags.len() {
        lemma_best_fold_in_range(tags, current, mode, k + 1, Some(k));
        lemma_best_fold_in_range(tags, current, mode, k + 1, acc);
    }
}

/// Whether `current_ref` already denotes `target` in the given pin style.
pub fn current_ref_matches_style(current_ref: &str, target: &Tag, style: PinStyle) -> (r: bool)
    ensures
        r == spec_style_matches(current_ref@, *target, style),
{
    match style {
        PinStyle::Tag => str_eq(current_ref, target.name.as_str()),
        PinStyle::Sha => sha_matches(current_ref, target.sha.as_str()),
    }
}

fn clone_opt(o: &Option<String>) -> (r: Option<String>)
    ensures
        r == *o,
{
    match o {
        Some(s) => Some(s.clone()),
        None => None,
    }
}

/// A copy of `a` with the given update fields.
#[allow(clippy::too_many_arguments)]
fn with_fields(
    a: &Action,
    expected_sha: String,
    sha_mismatch: bool,
    is_branch: bool,
    is_major: bool,
    new_ref: String,
    new_version: String,
    needs_update: bool,
) -> (r: Action)
    ensures
        same_identity(*a, r),
        r.expected_sha == expected_sha,
        r.sha_mismatch == sha_mismatch,
        r.is_branch == is_branch,
        r.is_major == is_major,
        r.new_ref == new_ref,
        r.new_version == new_version,
        r.needs_update == needs_update,
{
    Action {
        owner: a.owner.clone(),
        name: a.name.clone(),
        path: a.path.clone(),
        current_ref: a.current_ref.clone(),
        version_comment: clone_opt(&a.version_comment),
        file: a.file.clone(),
        line: a.line,
        ref_start: a.ref_start,
        ref_end: a.ref_end,
        new_ref,
        new_version,
        expected_sha,
        sha_mismatch,
        is_branch,
        is_major,
        needs_update,
    }
}

fn unchanged(a: &Action) -> (r: Action)
    ensures
        same_identity(*a, r),
        fields_of(r) == fields_of(*a),
{
    with_fields(
        a,
        a.expected_sha.clone(),
        a.sha_mismatch,
        a.is_branch,
        a.is_major,
        a.new_ref.clone(),
        a.new_version.clone(),
        a.needs_update,
    )
}

fn is_excluded(a: &Action, excludes: &Vec<String>) -> (r: bool)
    ensures
        r == excluded(*a, excludes@),
{
    let name = a.action_name();
    let name_cs = chars_of(name.as_str());
    let mut j: usize = 0;
    while j < excludes.len()
        invariant
            j <= excludes.len(),
            name_cs@ == spec_action_name(a.owner@, a.name@, a.path@),
            forall|k: int|
                0 <= k < j ==> !contains_seq(name_cs@, #[trigger] excludes@[k]@),
        decreases excludes.len() - j,
    {
        let ex = chars_of(excludes[j].as_str());
        if crate::text::find_seq(&name_cs, &ex).is_some() {
            return true;
        }
        j += 1;
    }
    false
}

fn find_repo<'a>(index: &'a [RepoTags], owner: &str, name: &str) -> (r: Option<usize>)
    ensures
        r matches Some(i) ==> find_first(index@, repo_is(owner@, name@)) == Some(i as int) && i
            < index@.len(),
        r is None ==> find_first(index@, repo_is(owner@, name@)) is None,
{
    let mut i: usize = 0;
    while i < index.len()
        invariant
            i <= index.len(),
            find_first(index@, repo_is(owner@, name@)) == find_from(
                index@,
                repo_is(owner@, name@),
                i as int,
            ),
        decreases index.len() - i,
    {
        if str_eq(index[i].owner.as_str(), owner) && str_eq(index[i].name.as_str(), name) {
            return Some(i);
        }
        i += 1;
    }
    None
}

fn find_tag_named(tags: &[Tag], name: &str) -> (r: Option<usize>)
    ensures
        r matches Some(i) ==> find_first(tags@, tag_named(name@)) == Some(i as int) && i
            < tags@.len(),
        r is None ==> find_first(tags@, tag_named(name@)) is None,
{
    let mut i: usize = 0;
    while i < tags.len()
        invariant
            i <= tags.len(),
            find_first(tags@, tag_named(name@)) == find_from(tags@, tag_named(name@), i as int),
        decreases tags.len() - i,
    {
        if str_eq(tags[i].name.as_str(), name) {
            return Some(i);
        }
        i += 1;
    }
    None
}

fn find_tag_for_ref(tags: &[Tag], current_ref: &str) -> (r: Option<usize>)
    ensures
        r matches Some(i) ==> find_first(tags@, tag_for_ref(current_ref@)) == Some(i as int) && i
            < tags@.len(),
        r is None ==> find_first(tags@, tag_for_ref(current_ref@)) is None,
{
    let mut i: usize = 0;
    while i < tags.len()
        invariant
            i <= tags.len(),
            find_first(tags@, tag_for_ref(current_ref@)) == find_from(
                tags@,
                tag_for_ref(current_ref@),
                i as int,
            ),
        decreases tags.len() - i,
    {
        if str_eq(tags[i].name.as_str(), current_ref) || sha_matches(
            current_ref,
            tags[i].sha.as_str(),
        ) {
            return Some(i);
        }
        i += 1;
    }
    None
}

/// The resolved copy of one action.
fn resolve_one(a: &Action, index: &[RepoTags], config: &ResolveConfig) -> (r: Action)
    ensures
        same_identity(*a, r),
        fields_of(r) == resolved_fields(*a, index@, *config),
{
    if is_excluded(a, &config.excludes) {
        return unchanged(a);
    }
    let ctx = match classify(a, config.skip_branches) {
        Some(c) => c,
        None => return unchanged(a),
    };
    let ri = match find_repo(index, a.owner.as_str(), a.name.as_str()) {
        Some(ri) => ri,
        None => return unchanged(a),
    };
    let tags = &index[ri].tags;
    if tags.len() == 0 {
        return unchanged(a);
    }
    let cur = a.current_ref.as_str();
    let ct = match &a.version_comment {
        Some(vc) => find_tag_named(tags.as_slice(), vc.as_str()),
        None => None,
    };
    let expected_sha = match ct {
        Some(i) => tags[i].sha.clone(),
        None => match find_tag_for_ref(tags.as_slice(), cur) {
            Some(i) => tags[i].sha.clone(),
            None => if ctx == CurrentRefKind::Sha {
                a.current_ref.clone()
            } else {
                String::new()
            },
        },
    };
    let sha_mismatch = ctx == CurrentRefKind::Sha && match ct {
        Some(i) => !sha_matches(cur, tags[i].sha.as_str()),
        None => false,
    };
    let cv = match parse_version(cur) {
        Some(v) => Some(v),
        None => match &a.version_comment {
            Some(c) => parse_version(c.as_str()),
            None => None,
        },
    };
    let target = match best_target(tags.as_slice(), cv, config.mode) {
        Some(t) => t,
        None => {
            return with_fields(
                a,
                expected_sha,
                sha_mismatch,
                a.is_branch,
                a.is_major,
                a.new_ref.clone(),
                a.new_version.clone(),
                a.needs_update,
            );
        },
    };
    let downgrade = match cv {
        Some(c) => target.version.lt(&c),
        None => false,
    };
    if downgrade || (!sha_mismatch && current_ref_matches_style(cur, target, config.style)) {
        return with_fields(
            a,
            expected_sha,
            sha_mismatch,
            a.is_branch,
            a.is_major,
            a.new_ref.clone(),
            a.new_version.clone(),
            a.needs_update,
        );
    }
    let is_major = match cv {
        Some(c) => target.version.major > c.major,
        None => false,
    };
    let new_ref = match config.style {
        PinStyle::Sha => target.sha.clone(),
        PinStyle::Tag => target.name.clone(),
    };
    with_fields(
        a,
        expected_sha,
        sha_mismatch,
        ctx == CurrentRefKind::Branch,
        is_major,
        new_ref,
        target.name.clone(),
        true,
    )
}

/// Fill in the update fields of every action from the tags of its repository.
///
/// `tags` lists the known tags per repository; the first entry for a repository is used.
pub fn resolve(actions: &mut Vec<Action>, tags: &[RepoTags], config: &ResolveConfig)
    requires
        repos_distinct(tags@),
    ensures
        final(actions)@.len() == old(actions)@.len(),
        forall|i: int|
            0 <= i < old(actions)@.len() ==> same_identity(old(actions)@[i], #[trigger] final(actions)@[i]),
        forall|i: int|
            0 <= i < old(actions)@.len() ==> fields_of(#[trigger] final(actions)@[i]) == resolved_fields(
                old(actions)@[i],
                tags@,
                *config,
            ),
{
    let ghost before = actions@;
    let mut i: usize = 0;
    while i < actions.len()
        invariant
            i <= actions.len(),
            actions@.len() == before.len(),
            forall|j: int| i <= j < before.len() ==> actions@[j] == before[j],
            forall|j: int| 0 <= j < i ==> same_identity(before[j], #[trigger] actions@[j]),
            forall|j: int|
                0 <= j < i ==> fields_of(#[trigger] actions@[j]) == resolved_fields(
                    before[j],
                    tags@,
                    *config,
                ),
        decreases actions.len() - i,
    {
        let r = resolve_one(&actions[i], tags, config);
        actions.set(i, r);
        i += 1;
    }
}

} // verus!
