//! Workflow files and the action references found in them.
use vstd::prelude::*;

use crate::paths::{components, components_of, spec_file_name};
use crate::prompt::text_lt;
use crate::text::{chars_of, push_str};

verus! {

/// An action reference as discovered in a workflow file.
#[derive(Debug, Clone, PartialEq, Eq)]
pub struct DiscoveredActionRef {
    pub file: String,
    pub line: usize,
    pub owner: String,
    pub name: String,
    pub repo: String,
    pub path: String,
    pub ref_name: String,
}

/// An action reference with its version comment.
#[derive(Debug, Clone, PartialEq, Eq)]
pub struct ActionRef {
    pub file: String,
    pub line: usize,
    pub owner: String,
    pub name: String,
    pub repo: String,
    pub path: String,
    pub ref_name: String,
    pub version_comment: Option<String>,
}

impl ActionRef {
    /// A field-by-field copy of this reference.
    pub fn duplicate(&self) -> (r: Self)
        ensures
            r == *self,
    {
        ActionRef {
            file: self.file.clone(),
            line: self.line,
            owner: self.owner.clone(),
            name: self.name.clone(),
            repo: self.repo.clone(),
            path: self.path.clone(),
            ref_name: self.ref_name.clone(),
            version_comment: crate::text::clone_opt_string(&self.version_comment),
        }
    }
}

/// Errors during workflow discovery.
#[derive(Debug, Clone, PartialEq, Eq)]
pub enum DiscoveryError {
    /// A directory or file system entry could not be read (the error's text).
    Io(String),
    /// An explicit target does not exist.
    NotFound { path: String },
    /// An explicit file target is not YAML.
    NotWorkflowFile { path: String },
    /// An explicit target exists but is neither a regular file nor a directory.
    NotFileOrDirectory { path: String },
}

/// The user-facing text of a discovery error.
pub open spec fn discovery_error_text(e: DiscoveryError) -> Seq<char> {
    match e {
        DiscoveryError::Io(m) => "failed to discover workflows: "@ + m@,
        DiscoveryError::NotFound { path } => "workflow path not found: "@ + path@,
        DiscoveryError::NotWorkflowFile { path } => "not a workflow file (expected .yml or .yaml): "@ + path@,
        DiscoveryError::NotFileOrDirectory { path } => "not a file or directory: "@ + path@,
    }
}

impl DiscoveryError {
    /// The user-facing text of this error.
    pub fn message(&self) -> (r: String)
        ensures
            r@ == discovery_error_text(*self),
    {
        let mut s = String::new();
        proof {
            reveal_strlit("failed to discover workflows: ");
            reveal_strlit("workflow path not found: ");
            reveal_strlit("not a workflow file (expected .yml or .yaml): ");
            reveal_strlit("not a file or directory: ");
        }
        match self {
            DiscoveryError::Io(m) => {
                push_str(&mut s, "failed to discover workflows: ");
                push_str(&mut s, m.as_str());
            },
            DiscoveryError::NotFound { path } => {
                push_str(&mut s, "workflow path not found: ");
                push_str(&mut s, path.as_str());
            },
            DiscoveryError::NotWorkflowFile { path } => {
                push_str(&mut s, "not a workflow file (expected .yml or .yaml): ");
                push_str(&mut s, path.as_str());
            },
            DiscoveryError::NotFileOrDirectory { path } => {
                push_str(&mut s, "not a file or directory: ");
                push_str(&mut s, path.as_str());
            },
        }
        proof {
            assert(s@ =~= discovery_error_text(*self));
        }
        s
    }
}


// ---------------------------------------------------------------------------
// Paths in the order of `Path`
// ---------------------------------------------------------------------------

/// One component of a path, in the order in which paths compare them: the
/// root, a leading `.`, `..`, then names.
pub ghost enum Comp {
    Root,
    Cur,
    Parent,
    Normal(Seq<char>),
}

pub open spec fn comp_of(c: Seq<char>) -> Comp {
    if c == seq!['.', '.'] {
        Comp::Parent
    } else {
        Comp::Normal(c)
    }
}

/// The component before the names: the root of an absolute path, or the
/// `.` that a path starts with.
pub open spec fn lead_of(p: Seq<char>) -> Seq<Comp> {
    if p.len() > 0 && p[0] == '/' {
        seq![Comp::Root]
    } else if p.len() > 0 && p[0] == '.' && (p.len() == 1 || p[1] == '/') {
        seq![Comp::Cur]
    } else {
        Seq::empty()
    }
}

/// The components of a path as `Path` sees them.
pub open spec fn path_comps(p: Seq<char>) -> Seq<Comp> {
    lead_of(p) + components(p).map_values(|c: Seq<char>| comp_of(c))
}

pub open spec fn rank(c: Comp) -> int {
    match c {
        Comp::Root => 0,
        Comp::Cur => 1,
        Comp::Parent => 2,
        Comp::Normal(_) => 3,
    }
}

pub open spec fn comp_lt(a: Comp, b: Comp) -> bool {
    match (a, b) {
        (Comp::Normal(x), Comp::Normal(y)) => text_lt(x, y),
        _ => rank(a) < rank(b),
    }
}

/// Component sequences in order: the first differing component decides, a
/// proper prefix comes first.
pub open spec fn comps_lt(a: Seq<Comp>, b: Seq<Comp>) -> bool
    decreases a.len(),
{
    if a.len() == 0 {
        b.len() > 0
    } else if b.len() == 0 {
        false
    } else if a[0] != b[0] {
        comp_lt(a[0], b[0])
    } else {
        comps_lt(a.drop_first(), b.drop_first())
    }
}

/// `p` sorts before `q` as paths.
pub open spec fn path_lt(p: Seq<char>, q: Seq<char>) -> bool {
    comps_lt(path_comps(p), path_comps(q))
}

/// `p` and `q` name the same path.
pub open spec fn path_eq(p: Seq<char>, q: Seq<char>) -> bool {
    path_comps(p) == path_comps(q)
}

/// A component as values: its rank, and its text for a name.
#[derive(Debug, Clone)]
pub struct PathPart {
    pub rank: u8,
    pub text: Vec<char>,
}

pub open spec fn part_view(x: PathPart) -> Comp {
    if x.rank == 0 {
        Comp::Root
    } else if x.rank == 1 {
        Comp::Cur
    } else if x.rank == 2 {
        Comp::Parent
    } else {
        Comp::Normal(x.text@)
    }
}

pub open spec fn parts_view(xs: Seq<PathPart>) -> Seq<Comp> {
    xs.map_values(|x: PathPart| part_view(x))
}

pub open spec fn parts_ok(xs: Seq<PathPart>) -> bool {
    forall|k: int| 0 <= k < xs.len() ==> (#[trigger] xs[k]).rank <= 3
}

fn less_chars(a: &[char], b: &[char]) -> (r: bool)
    ensures
        r == text_lt(a@, b@),
{
    let mut i: usize = 0;
    proof {
        assert(a@.skip(0) == a@);
        assert(b@.skip(0) == b@);
    }
    while i < a.len() && i < b.len() && a[i] == b[i]
        invariant
            0 <= i <= a.len(),
            i <= b.len(),
            text_lt(a@, b@) == text_lt(a@.skip(i as int), b@.skip(i as int)),
        decreases a.len() - i,
    {
        proof {
            assert(a@.skip(i as int).drop_first() == a@.skip(i as int + 1));
            assert(b@.skip(i as int).drop_first() == b@.skip(i as int + 1));
        }
        i += 1;
    }
    if i == a.len() {
        i < b.len()
    } else if i == b.len() {
        false
    } else {
        (a[i] as u32) < (b[i] as u32)
    }
}

fn same_chars(a: &[char], b: &[char]) -> (r: bool)
    ensures
        r == (a@ == b@),
{
    if a.len() != b.len() {
        return false;
    }
    let mut i: usize = 0;
    while i < a.len()
        invariant
            0 <= i <= a.len(),
            a.len() == b.len(),
            forall|j: int| 0 <= j < i ==> a@[j] == b@[j],
        decreases a.len() - i,
    {
        if a[i] != b[i] {
            return false;
        }
        i += 1;
    }
    assert(a@ =~= b@);
    true
}

fn same_part(a: &PathPart, b: &PathPart) -> (r: bool)
    requires
        a.rank <= 3,
        b.rank <= 3,
    ensures
        r == (part_view(*a) == part_view(*b)),
{
    if a.rank != b.rank {
        return false;
    }
    if a.rank < 3 {
        return true;
    }
    same_chars(&a.text, &b.text)
}

fn part_less(a: &PathPart, b: &PathPart) -> (r: bool)
    requires
        a.rank <= 3,
        b.rank <= 3,
    ensures
        r == comp_lt(part_view(*a), part_view(*b)),
{
    if a.rank == 3 && b.rank == 3 {
        less_chars(&a.text, &b.text)
    } else {
        a.rank < b.rank
    }
}

/// Whether the path with parts `a` sorts before the one with parts `b`.
fn parts_less(a: &[PathPart], b: &[PathPart]) -> (r: bool)
    requires
        parts_ok(a@),
        parts_ok(b@),
    ensures
        r == comps_lt(parts_view(a@), parts_view(b@)),
{
    let ghost va = parts_view(a@);
    let ghost vb = parts_view(b@);
    let mut i: usize = 0;
    proof {
        assert(va.skip(0) == va);
        assert(vb.skip(0) == vb);
    }
    while i < a.len() && i < b.len() && same_part(&a[i], &b[i])
        invariant
            0 <= i <= a.len(),
            i <= b.len(),
            va == parts_view(a@),
            vb == parts_view(b@),
            parts_ok(a@),
            parts_ok(b@),
            comps_lt(va, vb) == comps_lt(va.skip(i as int), vb.skip(i as int)),
        decreases a.len() - i,
    {
        proof {
            assert(va.skip(i as int).drop_first() == va.skip(i as int + 1));
            assert(vb.skip(i as int).drop_first() == vb.skip(i as int + 1));
        }
        i += 1;
    }
    if i == a.len() {
        i < b.len()
    } else if i == b.len() {
        false
    } else {
        proof {
            assert(va.skip(i as int)[0] == va[i as int]);
            assert(vb.skip(i as int)[0] == vb[i as int]);
        }
        part_less(&a[i], &b[i])
    }
}

pub fn parts_same(a: &[PathPart], b: &[PathPart]) -> (r: bool)
    requires
        parts_ok(a@),
        parts_ok(b@),
    ensures
        r == (parts_view(a@) == parts_view(b@)),
{
    if a.len() != b.len() {
        proof {
            assert(parts_view(a@).len() != parts_view(b@).len());
        }
        return false;
    }
    let mut i: usize = 0;
    while i < a.len()
        invariant
            0 <= i <= a.len(),
            a.len() == b.len(),
            parts_ok(a@),
            parts_ok(b@),
            forall|j: int| 0 <= j < i ==> part_view(a@[j]) == part_view(b@[j]),
        decreases a.len() - i,
    {
        if !same_part(&a[i], &b[i]) {
            proof {
                assert(parts_view(a@)[i as int] != parts_view(b@)[i as int]);
            }
            return false;
        }
        i += 1;
    }
    proof {
        assert(parts_view(a@) =~= parts_view(b@));
    }
    true
}

/// The components of a path, as parts that can be compared.
pub fn path_parts(path: &str) -> (r: Vec<PathPart>)
    ensures
        parts_view(r@) == path_comps(path@),
        parts_ok(r@),
{
    let cs = chars_of(path);
    let mut out: Vec<PathPart> = Vec::new();
    if cs.len() > 0 && cs[0] == '/' {
        out.push(PathPart { rank: 0, text: Vec::new() });
    } else if cs.len() > 0 && cs[0] == '.' && (cs.len() == 1 || cs[1] == '/') {
        out.push(PathPart { rank: 1, text: Vec::new() });
    }
    proof {
        assert(parts_view(out@) =~= lead_of(path@));
    }
    let comps = components_of(path);
    let ghost lead = parts_view(out@);
    let ghost cv = comps@.map_values(|c: Vec<char>| c@);
    let mut k: usize = 0;
    while k < comps.len()
        invariant
            0 <= k <= comps.len(),
            lead == lead_of(path@),
            cv == comps@.map_values(|c: Vec<char>| c@),
            cv == components(path@),
            parts_ok(out@),
            parts_view(out@) == lead + cv.take(k as int).map_values(|c: Seq<char>| comp_of(c)),
        decreases comps.len() - k,
    {
        let c = &comps[k];
        let is_parent = c.len() == 2 && c[0] == '.' && c[1] == '.';
        proof {
            assert(cv[k as int] == c@);
            if c.len() == 2 && c@[0] == '.' && c@[1] == '.' {
                assert(c@ =~= seq!['.', '.']);
            }
            if c@ == seq!['.', '.'] {
                assert(c@[0] == '.' && c@[1] == '.');
            }
        }
        let ghost before = parts_view(out@);
        if is_parent {
            out.push(PathPart { rank: 2, text: Vec::new() });
        } else {
            let text = crate::text::slice_vec(c, 0, c.len());
            assert(text@ =~= c@);
            out.push(PathPart { rank: 3, text });
        }
        proof {
            assert(parts_view(out@) =~= before.push(comp_of(c@)));
            assert(cv.take(k as int + 1).map_values(|c: Seq<char>| comp_of(c)) =~= cv.take(k as int).map_values(
                |c: Seq<char>| comp_of(c),
            ).push(comp_of(c@)));
        }
        k += 1;
    }
    proof {
        assert(cv.take(cv.len() as int) == cv);
    }
    out
}

/// `p` inserted into the ordered paths `s`: after every path that does not
/// sort after it; with `dedup`, not at all when `s` already holds the same
/// path at that point.
pub open spec fn insert_path(s: Seq<Seq<char>>, p: Seq<char>, dedup: bool) -> Seq<Seq<char>>
    decreases s.len(),
{
    if s.len() == 0 {
        seq![p]
    } else if path_lt(p, s[0]) {
        seq![p] + s
    } else if dedup && path_eq(p, s[0]) {
        s
    } else {
        seq![s[0]] + insert_path(s.drop_first(), p, dedup)
    }
}

/// The paths of `ps` inserted one after the other into `s`.
pub open spec fn insert_paths(s: Seq<Seq<char>>, ps: Seq<Seq<char>>, dedup: bool) -> Seq<Seq<char>>
    decreases ps.len(),
{
    if ps.len() == 0 {
        s
    } else {
        insert_path(insert_paths(s, ps.drop_last(), dedup), ps.last(), dedup)
    }
}

pub open spec fn views(v: Seq<String>) -> Seq<Seq<char>> {
    v.map_values(|s: String| s@)
}

/// Ordered paths, with the parts of each.
pub struct PathList {
    pub paths: Vec<String>,
    pub parts: Vec<Vec<PathPart>>,
}

impl PathList {
    pub open spec fn wf(&self) -> bool {
        &&& self.paths@.len() == self.parts@.len()
        &&& forall|k: int| 0 <= k < self.parts@.len() ==> parts_ok(#[trigger] self.parts@[k]@)
        &&& forall|k: int|
            0 <= k < self.parts@.len() ==> parts_view(#[trigger] self.parts@[k]@) == path_comps(
                self.paths@[k]@,
            )
    }

    pub fn new() -> (r: Self)
        ensures
            r.wf(),
            r.paths@.len() == 0,
    {
        PathList { paths: Vec::new(), parts: Vec::new() }
    }

    /// Inserts `p` as [`insert_path`] says.
    pub fn insert(&mut self, p: String, dedup: bool)
        requires
            old(self).wf(),
        ensures
            final(self).wf(),
            views(final(self).paths@) == insert_path(views(old(self).paths@), p@, dedup),
    {
        let key = path_parts(p.as_str());
        let ghost s = views(self.paths@);
        proof {
            assert(s.skip(0) =~= s);
            assert(s.take(0) + s =~= s);
        }
        let mut j: usize = 0;
        while j < self.paths.len()
            invariant
                0 <= j <= self.paths.len(),
                self.wf(),
                s == views(self.paths@),
                parts_view(key@) == path_comps(p@),
                parts_ok(key@),
                insert_path(s, p@, dedup) == s.take(j as int) + insert_path(s.skip(j as int), p@, dedup),
            ensures
                0 <= j <= self.paths.len(),
                self.wf(),
                s == views(self.paths@),
                parts_view(key@) == path_comps(p@),
                parts_ok(key@),
                insert_path(s, p@, dedup) == s.take(j as int) + insert_path(s.skip(j as int), p@, dedup),
                j < self.paths.len() ==> insert_path(s.skip(j as int), p@, dedup) == seq![p@] + s.skip(j as int),
            decreases self.paths.len() - j,
        {
            proof {
                assert(s.skip(j as int)[0] == self.paths@[j as int]@);
                assert(s.skip(j as int).drop_first() == s.skip(j as int + 1));
            }
            if parts_less(&key, &self.parts[j]) {
                proof {
                    assert(insert_path(s.skip(j as int), p@, dedup) == seq![p@] + s.skip(j as int));
                }
                break;
            }
            if dedup && parts_same(&key, &self.parts[j]) {
                proof {
                    assert(insert_path(s.skip(j as int), p@, dedup) == s.skip(j as int));
                    assert(s.take(j as int) + s.skip(j as int) =~= s);
                }
                return;
            }
            proof {
                assert(s.take(j as int + 1) =~= s.take(j as int).push(s[j as int]));
                assert(insert_path(s.skip(j as int), p@, dedup) == seq![s[j as int]] + insert_path(
                    s.skip(j as int + 1),
                    p@,
                    dedup,
                ));
                assert(s.take(j as int) + insert_path(s.skip(j as int), p@, dedup) =~= s.take(j as int + 1)
                    + insert_path(s.skip(j as int + 1), p@, dedup));
            }
            j += 1;
        }
        proof {
            if j == self.paths.len() {
                assert(s.skip(j as int) =~= Seq::<Seq<char>>::empty());
                assert(insert_path(s.skip(j as int), p@, dedup) =~= seq![p@] + s.skip(j as int));
            }
        }
        let ghost before = self.paths@;
        self.paths.insert(j, p);
        self.parts.insert(j, key);
        proof {
            assert(views(self.paths@) =~= s.take(j as int) + (seq![p@] + s.skip(j as int)));
            assert forall|k: int| 0 <= k < self.parts@.len() implies parts_view(#[trigger] self.parts@[k]@)
                == path_comps(self.paths@[k]@) by {
                if k < j {
                    assert(self.parts@[k] == old(self).parts@[k]);
                    assert(self.paths@[k] == before[k]);
                } else if k > j {
                    assert(self.parts@[k] == old(self).parts@[k - 1]);
                    assert(self.paths@[k] == before[k - 1]);
                }
            }
            assert forall|k: int| 0 <= k < self.parts@.len() implies parts_ok(#[trigger] self.parts@[k]@) by {
                if k < j {
                    assert(self.parts@[k] == old(self).parts@[k]);
                } else if k > j {
                    assert(self.parts@[k] == old(self).parts@[k - 1]);
                }
            }
        }
    }
}

/// The paths of `ps` in path order, each of the same path once (the first
/// one given), as a `BTreeSet` of paths holds them.
pub fn sorted_unique_paths(ps: &[String]) -> (r: Vec<String>)
    ensures
        views(r@) == insert_paths(Seq::empty(), views(ps@), true),
{
    let mut list = PathList::new();
    let mut i: usize = 0;
    while i < ps.len()
        invariant
            0 <= i <= ps.len(),
            list.wf(),
            views(list.paths@) == insert_paths(Seq::empty(), views(ps@).take(i as int), true),
        decreases ps.len() - i,
    {
        proof {
            assert(views(ps@).take(i as int + 1).drop_last() =~= views(ps@).take(i as int));
        }
        list.insert(ps[i].clone(), true);
        i += 1;
    }
    proof {
        assert(views(ps@).take(ps@.len() as int) =~= views(ps@));
    }
    list.paths
}

// ---------------------------------------------------------------------------
// Which files are workflows
// ---------------------------------------------------------------------------

/// The index of the last `c` in `s`.
pub open spec fn last_of(s: Seq<char>, c: char) -> Option<int>
    decreases s.len(),
{
    if s.len() == 0 {
        None
    } else if s.last() == c {
        Some(s.len() - 1)
    } else {
        last_of(s.drop_last(), c)
    }
}

proof fn lemma_last_of(s: Seq<char>, c: char, i: Option<int>)
    requires
        match i {
            Some(k) => 0 <= k < s.len() && s[k] == c && forall|j: int| k < j < s.len() ==> s[j] != c,
            None => forall|j: int| 0 <= j < s.len() ==> s[j] != c,
        },
    ensures
        last_of(s, c) == i,
    decreases s.len(),
{
    if s.len() > 0 && s.last() != c {
        let t = s.drop_last();
        match i {
            Some(k) => {
                assert(k < s.len() - 1);
                assert forall|j: int| k < j < t.len() implies t[j] != c by {
                    assert(t[j] == s[j]);
                }
            },
            None => {
                assert forall|j: int| 0 <= j < t.len() implies t[j] != c by {
                    assert(t[j] == s[j]);
                }
            },
        }
        lemma_last_of(t, c, i);
    }
}

/// The extension of a path: the end of its file name after the last dot,
/// unless that dot begins the name.
pub open spec fn spec_extension(p: Seq<char>) -> Option<Seq<char>> {
    match spec_file_name(p) {
        None => None,
        Some(n) => {
            let k = last_of(n, '.');
            match k {
                None => None,
                Some(i) => if i == 0 {
                    None
                } else {
                    Some(n.skip(i + 1))
                },
            }
        },
    }
}

/// A path with the extension `yml` or `yaml`.
pub open spec fn spec_is_yaml(p: Seq<char>) -> bool {
    spec_extension(p) == Some("yml"@) || spec_extension(p) == Some("yaml"@)
}


/// Whether `path` names a YAML file by its extension.
pub fn is_yaml(path: &str) -> (r: bool)
    ensures
        r == spec_is_yaml(path@),
{
    let name = match crate::paths::file_name(path) {
        Some(n) => n,
        None => {
            return false;
        },
    };
    let cs = chars_of(name.as_str());
    let k = crate::text::rfind_char(&cs, '.');
    proof {
        match k {
            Some(i) => lemma_last_of(cs@, '.', Some(i as int)),
            None => lemma_last_of(cs@, '.', None),
        }
        reveal_strlit("yml");
        reveal_strlit("yaml");
    }
    match k {
        None => false,
        Some(i) => {
            if i == 0 {
                return false;
            }
            let ext = crate::text::slice_vec(&cs, i + 1, cs.len());
            proof {
                assert(ext@ =~= cs@.skip(i + 1));
            }
            let yml = crate::text::lit("yml");
            let yaml = crate::text::lit("yaml");
            same_chars(&ext, &yml) || same_chars(&ext, &yaml)
        },
    }
}


// ---------------------------------------------------------------------------
// Resolving the workflow targets
// ---------------------------------------------------------------------------

/// What the file system holds at an explicit target, as the caller found it.
#[derive(Debug)]
pub enum TargetEntry {
    /// Nothing exists there.
    Missing,
    /// A regular file, at this path relative to the root.
    File(String),
    /// A directory: the regular files directly in it, relative to the root,
    /// or the text of the error that stopped reading it.
    Directory(Result<Vec<String>, String>),
    /// Something that is neither a regular file nor a directory.
    Other,
}

/// An explicit target as the user gave it, and what is there.
#[derive(Debug)]
pub struct Target {
    pub given: String,
    pub entry: TargetEntry,
}

/// The YAML paths of `ps`, in order.
pub open spec fn yaml_only(ps: Seq<Seq<char>>) -> Seq<Seq<char>>
    decreases ps.len(),
{
    if ps.len() == 0 {
        Seq::empty()
    } else if spec_is_yaml(ps.last()) {
        yaml_only(ps.drop_last()).push(ps.last())
    } else {
        yaml_only(ps.drop_last())
    }
}

/// One target added to the paths found so far.
pub open spec fn target_step(acc: Seq<Seq<char>>, t: Target) -> Result<Seq<Seq<char>>, DiscoveryError> {
    match t.entry {
        TargetEntry::Missing => Err(DiscoveryError::NotFound { path: t.given }),
        TargetEntry::File(p) => if spec_is_yaml(p@) {
            Ok(insert_path(acc, p@, true))
        } else {
            Err(DiscoveryError::NotWorkflowFile { path: t.given })
        },
        TargetEntry::Directory(Err(e)) => Err(DiscoveryError::Io(e)),
        TargetEntry::Directory(Ok(fs)) => Ok(insert_paths(acc, yaml_only(views(fs@)), true)),
        TargetEntry::Other => Err(DiscoveryError::NotFileOrDirectory { path: t.given }),
    }
}

/// The targets added in order, up to the first error.
pub open spec fn targets_from(acc: Seq<Seq<char>>, ts: Seq<Target>) -> Result<Seq<Seq<char>>, DiscoveryError>
    decreases ts.len(),
{
    if ts.len() == 0 {
        Ok(acc)
    } else {
        match target_step(acc, ts[0]) {
            Err(e) => Err(e),
            Ok(a) => targets_from(a, ts.drop_first()),
        }
    }
}

/// The workflows of the default directory: its YAML files in path order;
/// none when the directory does not exist.
pub open spec fn spec_default_workflows(listing: Option<Result<Vec<String>, String>>) -> Result<
    Seq<Seq<char>>,
    DiscoveryError,
> {
    match listing {
        None => Ok(Seq::empty()),
        Some(Err(e)) => Err(DiscoveryError::Io(e)),
        Some(Ok(fs)) => Ok(insert_paths(Seq::empty(), yaml_only(views(fs@)), false)),
    }
}

pub open spec fn result_views(r: Result<Vec<String>, DiscoveryError>) -> Result<Seq<Seq<char>>, DiscoveryError> {
    match r {
        Ok(v) => Ok(views(v@)),
        Err(e) => Err(e),
    }
}

fn add_yaml_files(list: &mut PathList, files: &[String], dedup: bool)
    requires
        old(list).wf(),
    ensures
        final(list).wf(),
        views(final(list).paths@) == insert_paths(views(old(list).paths@), yaml_only(views(files@)), dedup),
{
    let ghost start = views(list.paths@);
    let mut i: usize = 0;
    while i < files.len()
        invariant
            0 <= i <= files.len(),
            list.wf(),
            start == views(old(list).paths@),
            views(list.paths@) == insert_paths(start, yaml_only(views(files@).take(i as int)), dedup),
        decreases files.len() - i,
    {
        proof {
            assert(views(files@).take(i as int + 1).drop_last() =~= views(files@).take(i as int));
            assert(views(files@).take(i as int + 1).last() == files@[i as int]@);
        }
        let ghost ys = yaml_only(views(files@).take(i as int));
        if is_yaml(files[i].as_str()) {
            proof {
                assert(yaml_only(views(files@).take(i as int + 1)) == ys.push(files@[i as int]@));
                assert(ys.push(files@[i as int]@).drop_last() =~= ys);
            }
            list.insert(files[i].clone(), dedup);
        } else {
            proof {
                assert(yaml_only(views(files@).take(i as int + 1)) == ys);
            }
        }
        i += 1;
    }
    proof {
        assert(views(files@).take(files@.len() as int) =~= views(files@));
    }
}

/// The workflow files of the default directory, given its listing (`None`
/// when the directory does not exist).
pub fn discover_workflows(listing: &Option<Result<Vec<String>, String>>) -> (r: Result<Vec<String>, DiscoveryError>)
    ensures
        result_views(r) == spec_default_workflows(*listing),
{
    match listing {
        None => {
            let v: Vec<String> = Vec::new();
            assert(views(v@) =~= Seq::<Seq<char>>::empty());
            Ok(v)
        },
        Some(Err(e)) => Err(DiscoveryError::Io(e.clone())),
        Some(Ok(files)) => {
            let mut list = PathList::new();
            assert(views(list.paths@) =~= Seq::<Seq<char>>::empty());
            add_yaml_files(&mut list, files, false);
            Ok(list.paths)
        },
    }
}

/// Resolves explicit workflow targets: each file must be YAML, each
/// directory gives its YAML files (not those of its subdirectories); the
/// result is in path order with each path once. The first target that is
/// missing, not YAML, neither file nor directory, or unreadable is the
/// error. Without targets, the default directory's workflows are the result.
pub fn resolve_workflow_paths(targets: &[Target], default_listing: &Option<Result<Vec<String>, String>>) -> (r: Result<
    Vec<String>,
    DiscoveryError,
>)
    ensures
        targets@.len() == 0 ==> result_views(r) == spec_default_workflows(*default_listing),
        targets@.len() > 0 ==> result_views(r) == targets_from(Seq::empty(), targets@),
{
    if targets.len() == 0 {
        return discover_workflows(default_listing);
    }
    let mut list = PathList::new();
    let mut i: usize = 0;
    proof {
        assert(targets@.skip(0) =~= targets@);
        assert(views(list.paths@) =~= Seq::<Seq<char>>::empty());
    }
    while i < targets.len()
        invariant
            0 <= i <= targets.len(),
            list.wf(),
            targets_from(Seq::empty(), targets@) == targets_from(views(list.paths@), targets@.skip(i as int)),
        decreases targets.len() - i,
    {
        let t = &targets[i];
        let ghost acc = views(list.paths@);
        proof {
            assert(targets@.skip(i as int)[0] == *t);
            assert(targets@.skip(i as int).drop_first() =~= targets@.skip(i as int + 1));
        }
        match &t.entry {
            TargetEntry::Missing => {
                return Err(DiscoveryError::NotFound { path: t.given.clone() });
            },
            TargetEntry::File(p) => {
                if !is_yaml(p.as_str()) {
                    return Err(DiscoveryError::NotWorkflowFile { path: t.given.clone() });
                }
                list.insert(p.clone(), true);
            },
            TargetEntry::Directory(Err(e)) => {
                return Err(DiscoveryError::Io(e.clone()));
            },
            TargetEntry::Directory(Ok(files)) => {
                add_yaml_files(&mut list, files, true);
            },
            TargetEntry::Other => {
                return Err(DiscoveryError::NotFileOrDirectory { path: t.given.clone() });
            },
        }
        i += 1;
    }
    proof {
        assert(targets@.skip(i as int) =~= Seq::<Target>::empty());
    }
    Ok(list.paths)
}


// ---------------------------------------------------------------------------
// The path order is a strict total order
// ---------------------------------------------------------------------------

proof fn lemma_text_lt_irreflexive(a: Seq<char>)
    ensures
        !text_lt(a, a),
    decreases a.len(),
{
    if a.len() > 0 {
        lemma_text_lt_irreflexive(a.drop_first());
    }
}

proof fn lemma_text_lt_transitive(a: Seq<char>, b: Seq<char>, c: Seq<char>)
    requires
        text_lt(a, b),
        text_lt(b, c),
    ensures
        text_lt(a, c),
    decreases a.len(),
{
    if a.len() > 0 && b.len() > 0 && c.len() > 0 && a[0] == b[0] && b[0] == c[0] {
        lemma_text_lt_transitive(a.drop_first(), b.drop_first(), c.drop_first());
    }
}

proof fn lemma_text_lt_total(a: Seq<char>, b: Seq<char>)
    requires
        a != b,
    ensures
        text_lt(a, b) || text_lt(b, a),
    decreases a.len(),
{
    if a.len() > 0 && b.len() > 0 && a[0] == b[0] {
        if a.drop_first() == b.drop_first() {
            assert(a =~= seq![a[0]] + a.drop_first());
            assert(b =~= seq![b[0]] + b.drop_first());
        }
        lemma_text_lt_total(a.drop_first(), b.drop_first());
    } else if a.len() == 0 && b.len() == 0 {
        assert(a =~= b);
    } else if a.len() > 0 && b.len() > 0 {
        vstd::utf8::char_u32_cast(a[0], a[0] as u32);
        vstd::utf8::char_u32_cast(b[0], b[0] as u32);
    }
}

proof fn lemma_comp_lt_order(a: Comp, b: Comp, c: Comp)
    ensures
        !comp_lt(a, a),
        comp_lt(a, b) && comp_lt(b, c) ==> comp_lt(a, c),
        a != b ==> comp_lt(a, b) || comp_lt(b, a),
{
    match a {
        Comp::Normal(x) => lemma_text_lt_irreflexive(x),
        _ => {},
    }
    match (a, b, c) {
        (Comp::Normal(x), Comp::Normal(y), Comp::Normal(z)) => {
            if text_lt(x, y) && text_lt(y, z) {
                lemma_text_lt_transitive(x, y, z);
            }
        },
        _ => {},
    }
    match (a, b) {
        (Comp::Normal(x), Comp::Normal(y)) => {
            if x != y {
                lemma_text_lt_total(x, y);
            }
        },
        _ => {},
    }
}

proof fn lemma_comps_lt_irreflexive(a: Seq<Comp>)
    ensures
        !comps_lt(a, a),
    decreases a.len(),
{
    if a.len() > 0 {
        lemma_comps_lt_irreflexive(a.drop_first());
    }
}

proof fn lemma_comps_lt_transitive(a: Seq<Comp>, b: Seq<Comp>, c: Seq<Comp>)
    requires
        comps_lt(a, b),
        comps_lt(b, c),
    ensures
        comps_lt(a, c),
    decreases a.len(),
{
    if a.len() > 0 && b.len() > 0 && c.len() > 0 {
        lemma_comp_lt_order(a[0], b[0], c[0]);
        if a[0] == b[0] && b[0] == c[0] {
            lemma_comps_lt_transitive(a.drop_first(), b.drop_first(), c.drop_first());
        }
    }
}

proof fn lemma_comps_lt_total(a: Seq<Comp>, b: Seq<Comp>)
    requires
        a != b,
    ensures
        comps_lt(a, b) || comps_lt(b, a),
    decreases a.len(),
{
    if a.len() > 0 && b.len() > 0 {
        lemma_comp_lt_order(a[0], b[0], b[0]);
        if a[0] == b[0] {
            if a.drop_first() == b.drop_first() {
                assert(a =~= seq![a[0]] + a.drop_first());
                assert(b =~= seq![b[0]] + b.drop_first());
            }
            lemma_comps_lt_total(a.drop_first(), b.drop_first());
        }
    } else if a.len() == 0 && b.len() == 0 {
        assert(a =~= b);
    }
}

/// Two paths are in order one way or the other, or the same path.
pub(crate) proof fn lemma_path_order(p: Seq<char>, q: Seq<char>, r: Seq<char>)
    ensures
        !path_lt(p, p),
        path_lt(p, q) && path_lt(q, r) ==> path_lt(p, r),
        path_lt(p, q) || path_lt(q, p) || path_eq(p, q),
{
    lemma_comps_lt_irreflexive(path_comps(p));
    if path_lt(p, q) && path_lt(q, r) {
        lemma_comps_lt_transitive(path_comps(p), path_comps(q), path_comps(r));
    }
    if path_comps(p) != path_comps(q) {
        lemma_comps_lt_total(path_comps(p), path_comps(q));
    }
}


/// Each path sorts before the next one: path order, each path once.
pub open spec fn strictly_in_order(s: Seq<Seq<char>>) -> bool {
    forall|i: int, j: int| 0 <= i < j < s.len() ==> path_lt(#[trigger] s[i], #[trigger] s[j])
}

/// No path sorts before one that comes earlier.
pub open spec fn in_order(s: Seq<Seq<char>>) -> bool {
    forall|i: int, j: int| 0 <= i < j < s.len() ==> !path_lt(#[trigger] s[j], #[trigger] s[i])
}

proof fn lemma_insert_above(s: Seq<Seq<char>>, p: Seq<char>, lo: Seq<char>)
    requires
        path_lt(lo, p),
        forall|j: int| 0 <= j < s.len() ==> path_lt(lo, #[trigger] s[j]),
    ensures
        forall|k: int| 0 <= k < insert_path(s, p, true).len() ==> path_lt(lo, #[trigger] insert_path(s, p, true)[k]),
    decreases s.len(),
{
    if s.len() > 0 && !path_lt(p, s[0]) && !path_eq(p, s[0]) {
        let t = s.drop_first();
        lemma_insert_above(t, p, lo);
        assert forall|k: int| 0 <= k < insert_path(s, p, true).len() implies path_lt(
            lo,
            #[trigger] insert_path(s, p, true)[k],
        ) by {
            if k > 0 {
                assert(insert_path(s, p, true)[k] == insert_path(t, p, true)[k - 1]);
            }
        }
    }
}

proof fn lemma_insert_strict(s: Seq<Seq<char>>, p: Seq<char>)
    requires
        strictly_in_order(s),
    ensures
        strictly_in_order(insert_path(s, p, true)),
    decreases s.len(),
{
    let r = insert_path(s, p, true);
    if s.len() == 0 {
    } else if path_lt(p, s[0]) {
        assert forall|i: int, j: int| 0 <= i < j < r.len() implies path_lt(#[trigger] r[i], #[trigger] r[j]) by {
            if i == 0 {
                if j > 1 {
                    lemma_path_order(p, s[0], s[j - 1]);
                }
            } else {
                assert(r[i] == s[i - 1] && r[j] == s[j - 1]);
            }
        }
    } else if path_eq(p, s[0]) {
    } else {
        lemma_path_order(p, s[0], s[0]);
        let t = s.drop_first();
        lemma_insert_strict(t, p);
        lemma_insert_above(t, p, s[0]);
        assert forall|i: int, j: int| 0 <= i < j < r.len() implies path_lt(#[trigger] r[i], #[trigger] r[j]) by {
            assert(r[j] == insert_path(t, p, true)[j - 1]);
            if i > 0 {
                assert(r[i] == insert_path(t, p, true)[i - 1]);
            }
        }
    }
}

pub(crate) proof fn lemma_insert_paths_strict(s: Seq<Seq<char>>, ps: Seq<Seq<char>>)
    requires
        strictly_in_order(s),
    ensures
        strictly_in_order(insert_paths(s, ps, true)),
    decreases ps.len(),
{
    if ps.len() > 0 {
        lemma_insert_paths_strict(s, ps.drop_last());
        lemma_insert_strict(insert_paths(s, ps.drop_last(), true), ps.last());
    }
}

proof fn lemma_insert_not_below(s: Seq<Seq<char>>, p: Seq<char>, lo: Seq<char>)
    requires
        !path_lt(p, lo),
        forall|j: int| 0 <= j < s.len() ==> !path_lt(#[trigger] s[j], lo),
    ensures
        forall|k: int| 0 <= k < insert_path(s, p, false).len() ==> !path_lt(#[trigger] insert_path(s, p, false)[k], lo),
    decreases s.len(),
{
    if s.len() > 0 && !path_lt(p, s[0]) {
        let t = s.drop_first();
        lemma_insert_not_below(t, p, lo);
        assert forall|k: int| 0 <= k < insert_path(s, p, false).len() implies !path_lt(
            #[trigger] insert_path(s, p, false)[k],
            lo,
        ) by {
            if k > 0 {
                assert(insert_path(s, p, false)[k] == insert_path(t, p, false)[k - 1]);
            }
        }
    }
}

proof fn lemma_insert_in_order(s: Seq<Seq<char>>, p: Seq<char>)
    requires
        in_order(s),
    ensures
        in_order(insert_path(s, p, false)),
    decreases s.len(),
{
    let r = insert_path(s, p, false);
    if s.len() == 0 {
    } else if path_lt(p, s[0]) {
        assert forall|i: int, j: int| 0 <= i < j < r.len() implies !path_lt(#[trigger] r[j], #[trigger] r[i]) by {
            if i == 0 {
                lemma_path_order(s[j - 1], p, s[0]);
                lemma_path_order(s[0], s[0], s[0]);
            } else {
                assert(r[i] == s[i - 1] && r[j] == s[j - 1]);
            }
        }
    } else {
        let t = s.drop_first();
        lemma_insert_in_order(t, p);
        lemma_insert_not_below(t, p, s[0]);
        assert forall|i: int, j: int| 0 <= i < j < r.len() implies !path_lt(#[trigger] r[j], #[trigger] r[i]) by {
            assert(r[j] == insert_path(t, p, false)[j - 1]);
            if i > 0 {
                assert(r[i] == insert_path(t, p, false)[i - 1]);
            }
        }
    }
}

proof fn lemma_insert_paths_in_order(s: Seq<Seq<char>>, ps: Seq<Seq<char>>)
    requires
        in_order(s),
    ensures
        in_order(insert_paths(s, ps, false)),
    decreases ps.len(),
{
    if ps.len() > 0 {
        lemma_insert_paths_in_order(s, ps.drop_last());
        lemma_insert_in_order(insert_paths(s, ps.drop_last(), false), ps.last());
    }
}

/// Adding targets to paths in strict order keeps them in strict order.
pub(crate) proof fn lemma_targets_strict(acc: Seq<Seq<char>>, ts: Seq<Target>)
    requires
        strictly_in_order(acc),
    ensures
        targets_from(acc, ts) matches Ok(r) ==> strictly_in_order(r),
    decreases ts.len(),
{
    if ts.len() > 0 {
        match ts[0].entry {
            TargetEntry::File(p) => {
                if spec_is_yaml(p@) {
                    lemma_insert_strict(acc, p@);
                    lemma_targets_strict(insert_path(acc, p@, true), ts.drop_first());
                }
            },
            TargetEntry::Directory(Ok(fs)) => {
                let a = insert_paths(acc, yaml_only(views(fs@)), true);
                lemma_insert_paths_strict(acc, yaml_only(views(fs@)));
                lemma_targets_strict(a, ts.drop_first());
            },
            _ => {},
        }
    }
}

/// The default directory's workflows come in path order.
pub(crate) proof fn lemma_default_in_order(listing: Option<Result<Vec<String>, String>>)
    ensures
        spec_default_workflows(listing) matches Ok(r) ==> in_order(r),
{
    if let Some(Ok(fs)) = listing {
        lemma_insert_paths_in_order(Seq::empty(), yaml_only(views(fs@)));
    }
}

/// A path the targets may contribute: a file target's path, or a YAML file
/// listed directly in a directory target.
pub open spec fn offered(ts: Seq<Target>, p: Seq<char>) -> bool {
    exists|k: int|
        0 <= k < ts.len() && match (#[trigger] ts[k]).entry {
            TargetEntry::File(f) => f@ == p,
            TargetEntry::Directory(Ok(fs)) => yaml_only(views(fs@)).contains(p),
            _ => false,
        }
}

proof fn lemma_insert_from(s: Seq<Seq<char>>, p: Seq<char>, dedup: bool)
    ensures
        forall|x: Seq<char>| #[trigger] insert_path(s, p, dedup).contains(x) ==> x == p || s.contains(x),
    decreases s.len(),
{
    if s.len() > 0 && !path_lt(p, s[0]) && !(dedup && path_eq(p, s[0])) {
        lemma_insert_from(s.drop_first(), p, dedup);
        assert forall|x: Seq<char>| #[trigger] insert_path(s, p, dedup).contains(x) implies x == p || s.contains(x) by {
            let r = insert_path(s, p, dedup);
            let k = choose|k: int| 0 <= k < r.len() && r[k] == x;
            if k > 0 {
                assert(insert_path(s.drop_first(), p, dedup)[k - 1] == x);
                assert(insert_path(s.drop_first(), p, dedup).contains(x));
                if s.drop_first().contains(x) {
                    let j = choose|j: int| 0 <= j < s.drop_first().len() && s.drop_first()[j] == x;
                    assert(s[j + 1] == x);
                }
            } else {
                assert(s[0] == x);
            }
        }
    } else if s.len() > 0 && path_lt(p, s[0]) {
        assert forall|x: Seq<char>| #[trigger] insert_path(s, p, dedup).contains(x) implies x == p || s.contains(x) by {
            let r = insert_path(s, p, dedup);
            let k = choose|k: int| 0 <= k < r.len() && r[k] == x;
            if k > 0 {
                assert(s[k - 1] == x);
            }
        }
    } else if s.len() == 0 {
        assert forall|x: Seq<char>| #[trigger] insert_path(s, p, dedup).contains(x) implies x == p || s.contains(x) by {
            let r = insert_path(s, p, dedup);
            let k = choose|k: int| 0 <= k < r.len() && r[k] == x;
        }
    }
}

proof fn lemma_insert_paths_from(s: Seq<Seq<char>>, ps: Seq<Seq<char>>, dedup: bool)
    ensures
        forall|x: Seq<char>| #[trigger] insert_paths(s, ps, dedup).contains(x) ==> ps.contains(x) || s.contains(x),
    decreases ps.len(),
{
    if ps.len() > 0 {
        lemma_insert_paths_from(s, ps.drop_last(), dedup);
        lemma_insert_from(insert_paths(s, ps.drop_last(), dedup), ps.last(), dedup);
        assert forall|x: Seq<char>| #[trigger] insert_paths(s, ps, dedup).contains(x) implies ps.contains(x)
            || s.contains(x) by {
            if x == ps.last() {
                assert(ps[ps.len() - 1] == x);
            } else if insert_paths(s, ps.drop_last(), dedup).contains(x) {
                if ps.drop_last().contains(x) {
                    let j = choose|j: int| 0 <= j < ps.drop_last().len() && ps.drop_last()[j] == x;
                    assert(ps[j] == x);
                }
            }
        }
    }
}

/// Resolving targets brings in nothing but what the targets offer.
pub(crate) proof fn lemma_targets_from_offered(acc: Seq<Seq<char>>, ts: Seq<Target>)
    ensures
        targets_from(acc, ts) matches Ok(r) ==> forall|x: Seq<char>|
            #[trigger] r.contains(x) ==> acc.contains(x) || offered(ts, x),
    decreases ts.len(),
{
    if ts.len() > 0 {
        match target_step(acc, ts[0]) {
            Ok(a) => {
                lemma_targets_from_offered(a, ts.drop_first());
                match ts[0].entry {
                    TargetEntry::File(f) => {
                        lemma_insert_from(acc, f@, true);
                    },
                    TargetEntry::Directory(Ok(fs)) => {
                        lemma_insert_paths_from(acc, yaml_only(views(fs@)), true);
                    },
                    _ => {},
                }
                if let Ok(r) = targets_from(acc, ts) {
                    assert forall|x: Seq<char>| #[trigger] r.contains(x) implies acc.contains(x) || offered(ts, x) by {
                        if a.contains(x) {
                            if !acc.contains(x) {
                                assert(ts[0] == ts[0]);
                            }
                        } else {
                            assert(offered(ts.drop_first(), x));
                            let k = choose|k: int| 0 <= k < ts.drop_first().len() && match (#[trigger] ts.drop_first()[k]).entry {
                                TargetEntry::File(f) => f@ == x,
                                TargetEntry::Directory(Ok(fs)) => yaml_only(views(fs@)).contains(x),
                                _ => false,
                            };
                            assert(ts[k + 1] == ts.drop_first()[k]);
                        }
                    }
                }
            },
            Err(_) => {},
        }
    }
}

/// The default directory's workflows are YAML files of its listing.
pub(crate) proof fn lemma_default_from_listing(listing: Option<Result<Vec<String>, String>>)
    ensures
        spec_default_workflows(listing) matches Ok(r) ==> forall|x: Seq<char>| #[trigger] r.contains(x) ==> (
        listing matches Some(Ok(fs)) && yaml_only(views(fs@)).contains(x)),
{
    if let Some(Ok(fs)) = listing {
        lemma_insert_paths_from(Seq::empty(), yaml_only(views(fs@)), false);
    }
}

/// `s` holds the path `p`, perhaps written another way.
pub open spec fn holds_path(s: Seq<Seq<char>>, p: Seq<char>) -> bool {
    exists|i: int| 0 <= i < s.len() && path_eq(#[trigger] s[i], p)
}

proof fn lemma_insert_keeps(s: Seq<Seq<char>>, p: Seq<char>, dedup: bool)
    ensures
        forall|i: int| 0 <= i < s.len() ==> insert_path(s, p, dedup).contains(#[trigger] s[i]),
        holds_path(insert_path(s, p, dedup), p),
    decreases s.len(),
{
    let r = insert_path(s, p, dedup);
    if s.len() == 0 {
        assert(r[0] == p && path_eq(r[0], p));
    } else if path_lt(p, s[0]) {
        assert(r[0] == p && path_eq(r[0], p));
        assert forall|i: int| 0 <= i < s.len() implies r.contains(#[trigger] s[i]) by {
            assert(r[i + 1] == s[i]);
        }
    } else if dedup && path_eq(p, s[0]) {
        assert(path_eq(r[0], p));
        assert forall|i: int| 0 <= i < s.len() implies r.contains(#[trigger] s[i]) by {
            assert(r[i] == s[i]);
        }
    } else {
        let t = s.drop_first();
        lemma_insert_keeps(t, p, dedup);
        let rt = insert_path(t, p, dedup);
        assert(r == seq![s[0]] + rt);
        assert forall|i: int| 0 <= i < s.len() implies r.contains(#[trigger] s[i]) by {
            if i == 0 {
                assert(r[0] == s[0]);
            } else {
                assert(t[i - 1] == s[i]);
                assert(rt.contains(t[i - 1]));
                let j = choose|j: int| 0 <= j < rt.len() && rt[j] == t[i - 1];
                assert(r[j + 1] == s[i]);
            }
        }
        let j = choose|j: int| 0 <= j < rt.len() && path_eq(#[trigger] rt[j], p);
        assert(r[j + 1] == rt[j]);
    }
}

proof fn lemma_holds_kept(s: Seq<Seq<char>>, r: Seq<Seq<char>>, q: Seq<char>)
    requires
        holds_path(s, q),
        forall|i: int| 0 <= i < s.len() ==> r.contains(#[trigger] s[i]),
    ensures
        holds_path(r, q),
{
    let i = choose|i: int| 0 <= i < s.len() && path_eq(#[trigger] s[i], q);
    assert(r.contains(s[i]));
    let j = choose|j: int| 0 <= j < r.len() && r[j] == s[i];
    assert(path_eq(r[j], q));
}

pub(crate) proof fn lemma_insert_paths_keeps(s: Seq<Seq<char>>, ps: Seq<Seq<char>>, dedup: bool)
    ensures
        forall|q: Seq<char>| holds_path(s, q) ==> #[trigger] holds_path(insert_paths(s, ps, dedup), q),
        forall|k: int| 0 <= k < ps.len() ==> holds_path(insert_paths(s, ps, dedup), #[trigger] ps[k]),
    decreases ps.len(),
{
    if ps.len() > 0 {
        let a = insert_paths(s, ps.drop_last(), dedup);
        lemma_insert_paths_keeps(s, ps.drop_last(), dedup);
        lemma_insert_keeps(a, ps.last(), dedup);
        let r = insert_paths(s, ps, dedup);
        assert forall|q: Seq<char>| holds_path(s, q) implies #[trigger] holds_path(r, q) by {
            lemma_holds_kept(a, r, q);
        }
        assert forall|k: int| 0 <= k < ps.len() implies holds_path(r, #[trigger] ps[k]) by {
            if k < ps.len() - 1 {
                assert(ps.drop_last()[k] == ps[k]);
                lemma_holds_kept(a, r, ps[k]);
            }
        }
    }
}

/// Every path that the targets offer comes out of resolving them, perhaps
/// written another way, once the targets resolve without error.
pub(crate) proof fn lemma_targets_hold_offered(acc: Seq<Seq<char>>, ts: Seq<Target>)
    ensures
        targets_from(acc, ts) matches Ok(r) ==> (forall|q: Seq<char>| holds_path(acc, q) ==> #[trigger] holds_path(r, q))
            && forall|q: Seq<char>| offered(ts, q) ==> #[trigger] holds_path(r, q),
    decreases ts.len(),
{
    if ts.len() > 0 {
        match target_step(acc, ts[0]) {
            Ok(a) => {
                lemma_targets_hold_offered(a, ts.drop_first());
                match ts[0].entry {
                    TargetEntry::File(f) => {
                        lemma_insert_keeps(acc, f@, true);
                        assert forall|q: Seq<char>| holds_path(acc, q) implies #[trigger] holds_path(a, q) by {
                            lemma_holds_kept(acc, a, q);
                        }
                    },
                    TargetEntry::Directory(Ok(fs)) => {
                        lemma_insert_paths_keeps(acc, yaml_only(views(fs@)), true);
                    },
                    _ => {},
                }
                if let Ok(r) = targets_from(acc, ts) {
                    assert forall|q: Seq<char>| offered(ts, q) implies #[trigger] holds_path(r, q) by {
                        let k = choose|k: int| 0 <= k < ts.len() && match (#[trigger] ts[k]).entry {
                            TargetEntry::File(f) => f@ == q,
                            TargetEntry::Directory(Ok(fs)) => yaml_only(views(fs@)).contains(q),
                            _ => false,
                        };
                        if k == 0 {
                            match ts[0].entry {
                                TargetEntry::File(f) => {
                                    assert(holds_path(a, q));
                                },
                                TargetEntry::Directory(Ok(fs)) => {
                                    let j = choose|j: int| 0 <= j < yaml_only(views(fs@)).len() && yaml_only(views(fs@))[j] == q;
                                    assert(holds_path(a, yaml_only(views(fs@))[j]));
                                },
                                _ => {},
                            }
                        } else {
                            assert(ts.drop_first()[k - 1] == ts[k]);
                            assert(offered(ts.drop_first(), q));
                        }
                    }
                }
            },
            Err(_) => {},
        }
    }
}

/// The error a target gives, whatever came before it.
pub open spec fn target_error(t: Target) -> Option<DiscoveryError> {
    match t.entry {
        TargetEntry::Missing => Some(DiscoveryError::NotFound { path: t.given }),
        TargetEntry::File(p) => if spec_is_yaml(p@) {
            None
        } else {
            Some(DiscoveryError::NotWorkflowFile { path: t.given })
        },
        TargetEntry::Directory(Err(e)) => Some(DiscoveryError::Io(e)),
        TargetEntry::Directory(Ok(_)) => None,
        TargetEntry::Other => Some(DiscoveryError::NotFileOrDirectory { path: t.given }),
    }
}

/// Resolving targets fails with the error of the first target that has
/// one, and succeeds when none has.
pub(crate) proof fn lemma_targets_first_error(acc: Seq<Seq<char>>, ts: Seq<Target>)
    ensures
        targets_from(acc, ts) matches Err(e) ==> exists|k: int|
            0 <= k < ts.len() && target_error(#[trigger] ts[k]) == Some(e) && forall|j: int|
                0 <= j < k ==> target_error(#[trigger] ts[j]) is None,
        (forall|k: int| 0 <= k < ts.len() ==> target_error(#[trigger] ts[k]) is None) ==> targets_from(acc, ts) is Ok,
    decreases ts.len(),
{
    if ts.len() > 0 {
        match target_step(acc, ts[0]) {
            Ok(a) => {
                assert(target_error(ts[0]) is None);
                lemma_targets_first_error(a, ts.drop_first());
                if let Err(e) = targets_from(acc, ts) {
                    let k = choose|k: int|
                        0 <= k < ts.drop_first().len() && target_error(#[trigger] ts.drop_first()[k]) == Some(e)
                            && forall|j: int| 0 <= j < k ==> target_error(#[trigger] ts.drop_first()[j]) is None;
                    assert(ts[k + 1] == ts.drop_first()[k]);
                    assert forall|j: int| 0 <= j < k + 1 implies target_error(#[trigger] ts[j]) is None by {
                        if j > 0 {
                            assert(ts[j] == ts.drop_first()[j - 1]);
                        }
                    }
                }
                if forall|k: int| 0 <= k < ts.len() ==> target_error(#[trigger] ts[k]) is None {
                    assert forall|k: int| 0 <= k < ts.drop_first().len() implies target_error(
                        #[trigger] ts.drop_first()[k],
                    ) is None by {
                        assert(ts.drop_first()[k] == ts[k + 1]);
                    }
                }
            },
            Err(e) => {
                assert(target_error(ts[0]) == Some(e));
            },
        }
    }
}

} // verus!
