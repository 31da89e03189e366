//! GitHub references, releases and the rules of the GitHub client: how a
//! written ref is classified, where it is cached, how release pages are
//! gathered, and how client errors read.
use vstd::prelude::*;

pub mod cache;
pub mod tags;

pub use cache::{CacheEntry, encode_ref};

use crate::render::push_decimal;
use crate::text::{all_hex, chars_of, digit, hex, push_str};

verus! {

/// The kind of git reference that was resolved.
#[derive(Debug, Clone, Copy, PartialEq, Eq, Structural)]
pub enum RefKind {
    /// A version tag (e.g. `v4`, `v1.2.3`).
    Tag,
    /// A branch name (e.g. `main`, `feature/foo`).
    Branch,
    /// The input was already a full 40-character SHA: no lookup was performed.
    Sha,
}

pub open spec fn ref_kind_label(k: RefKind) -> Seq<char> {
    match k {
        RefKind::Tag => "tag"@,
        RefKind::Branch => "branch"@,
        RefKind::Sha => "sha"@,
    }
}

impl RefKind {
    /// The lower-case name of this kind, as shown to users and stored in the cache.
    pub fn as_str(self) -> (r: &'static str)
        ensures
            r@ == ref_kind_label(self),
    {
        match self {
            RefKind::Tag => "tag",
            RefKind::Branch => "branch",
            RefKind::Sha => "sha",
        }
    }
}

/// A GitHub release entry used for update planning.
#[derive(Debug, Clone, PartialEq, Eq)]
pub struct Release {
    pub tag_name: String,
    pub published_at: String,
    pub prerelease: bool,
}

impl Release {
    /// A field-by-field copy of this release.
    pub fn duplicate(&self) -> (r: Self)
        ensures
            r == *self,
    {
        Release {
            tag_name: self.tag_name.clone(),
            published_at: self.published_at.clone(),
            prerelease: self.prerelease,
        }
    }
}

/// Cached list of releases for a repository.
#[derive(Debug, Clone, PartialEq, Eq)]
pub struct ReleasesIndex {
    pub releases: Vec<Release>,
    pub fetched_at: u64,
}

/// A resolved git reference.
#[derive(Debug, Clone, PartialEq, Eq)]
pub struct ResolvedRef {
    /// Full 40-character commit SHA.
    pub sha: String,
    /// How the input ref was classified.
    pub ref_kind: RefKind,
    /// ISO 8601 publication timestamp from the GitHub Releases API, if available.
    pub published_at: Option<String>,
}

impl ResolvedRef {
    /// A field-by-field copy of this resolution.
    pub fn duplicate(&self) -> (r: Self)
        ensures
            r == *self,
    {
        ResolvedRef {
            sha: self.sha.clone(),
            ref_kind: self.ref_kind,
            published_at: crate::text::clone_opt_string(&self.published_at),
        }
    }
}

/// One item of a page of the releases listing, as the API returns it.
#[derive(Debug, Clone, PartialEq, Eq)]
pub struct ReleaseListItem {
    pub tag_name: String,
    pub published_at: Option<String>,
    pub prerelease: bool,
}

/// Errors produced by the GitHub client.
#[derive(Debug, Clone, PartialEq, Eq)]
pub enum GitHubError {
    /// Offline mode is active and there is no cached entry for this request.
    Offline,
    /// The server returned an unexpected HTTP status.
    Http {
        /// HTTP status code.
        status: u16,
        /// Brief description (may be empty).
        message: String,
    },
    /// GitHub API rate limit exceeded (HTTP 403 or 429).
    RateLimited,
    /// The requested ref does not exist on GitHub (HTTP 404).
    NotFound { owner: String, repo: String, git_ref: String },
    /// Failed to read a cache entry from disk (the I/O error's text).
    CacheRead(String),
    /// Failed to write a cache entry to disk (the I/O error's text).
    CacheWrite(String),
    /// JSON (de)serialisation error (the parser's text).
    Json(String),
    /// Low-level transport / TLS error from the HTTP client.
    Transport(String),
}

pub open spec fn github_error_text(e: GitHubError) -> Seq<char> {
    match e {
        GitHubError::Offline => "offline mode: no cached response available"@,
        GitHubError::Http { status, message } => if message@.len() == 0 {
            "GitHub API error (HTTP "@ + crate::render::dec_string(status as nat) + ")"@
        } else {
            "GitHub API error (HTTP "@ + crate::render::dec_string(status as nat) + "): "@
                + message@
        },
        GitHubError::RateLimited => "GitHub API rate limit exceeded"@,
        GitHubError::NotFound { owner, repo, git_ref } => owner@ + "/"@ + repo@ + "@"@ + git_ref@
            + ": ref not found on GitHub"@,
        GitHubError::CacheRead(e) => "cache read error: "@ + e@,
        GitHubError::CacheWrite(e) => "cache write error: "@ + e@,
        GitHubError::Json(e) => "JSON error: "@ + e@,
        GitHubError::Transport(s) => "transport error: "@ + s@,
    }
}

impl GitHubError {
    /// The user-facing text of this error.
    pub fn message(&self) -> (r: String)
        ensures
            r@ == github_error_text(*self),
    {
        let mut out = String::new();
        match self {
            GitHubError::Offline => {
                push_str(&mut out, "offline mode: no cached response available");
            },
            GitHubError::Http { status, message } => {
                push_str(&mut out, "GitHub API error (HTTP ");
                push_decimal(&mut out, *status as u64);
                if chars_of(message.as_str()).len() == 0 {
                    push_str(&mut out, ")");
                } else {
                    push_str(&mut out, "): ");
                    push_str(&mut out, message.as_str());
                }
            },
            GitHubError::RateLimited => {
                push_str(&mut out, "GitHub API rate limit exceeded");
            },
            GitHubError::NotFound { owner, repo, git_ref } => {
                push_str(&mut out, owner.as_str());
                push_str(&mut out, "/");
                push_str(&mut out, repo.as_str());
                push_str(&mut out, "@");
                push_str(&mut out, git_ref.as_str());
                push_str(&mut out, ": ref not found on GitHub");
            },
            GitHubError::CacheRead(e) => {
                push_str(&mut out, "cache read error: ");
                push_str(&mut out, e.as_str());
            },
            GitHubError::CacheWrite(e) => {
                push_str(&mut out, "cache write error: ");
                push_str(&mut out, e.as_str());
            },
            GitHubError::Json(e) => {
                push_str(&mut out, "JSON error: ");
                push_str(&mut out, e.as_str());
            },
            GitHubError::Transport(s) => {
                push_str(&mut out, "transport error: ");
                push_str(&mut out, s.as_str());
            },
        }
        proof {
            reveal_strlit("offline mode: no cached response available");
            reveal_strlit("GitHub API error (HTTP ");
            reveal_strlit(")");
            reveal_strlit("): ");
            reveal_strlit("GitHub API rate limit exceeded");
            reveal_strlit("/");
            reveal_strlit("@");
            reveal_strlit(": ref not found on GitHub");
            reveal_strlit("cache read error: ");
            reveal_strlit("cache write error: ");
            reveal_strlit("JSON error: ");
            reveal_strlit("transport error: ");
        }
        out
    }
}

/// A full 40-character SHA-1 hash: exactly forty hexadecimal digits.
pub open spec fn spec_is_full_sha(s: Seq<char>) -> bool {
    s.len() == 40 && all_hex(s)
}

/// Returns `true` if `s` looks like a full 40-character SHA-1 hash.
pub fn is_full_sha(s: &str) -> (r: bool)
    ensures
        r == spec_is_full_sha(s@),
{
    let cs = chars_of(s);
    if cs.len() != 40 {
        return false;
    }
    let mut i: usize = 0;
    while i < cs.len()
        invariant
            cs@ == s@,
            0 <= i <= cs.len(),
            forall|j: int| 0 <= j < i ==> crate::text::is_hex(#[trigger] cs@[j]),
        decreases cs.len() - i,
    {
        if !hex(cs[i]) {
            return false;
        }
        i += 1;
    }
    true
}

/// `v` followed by a digit is a tag; anything else is a branch.
pub open spec fn spec_classify_ref(s: Seq<char>) -> RefKind {
    if s.len() >= 2 && s[0] == 'v' && crate::text::is_digit(s[1]) {
        RefKind::Tag
    } else {
        RefKind::Branch
    }
}

/// Classify a git ref string as a tag (`v` then a digit) or a branch.
/// Full SHAs are handled before this function is called.
pub fn classify_ref(s: &str) -> (r: RefKind)
    ensures
        r == spec_classify_ref(s@),
{
    let cs = chars_of(s);
    if cs.len() >= 2 && cs[0] == 'v' && digit(cs[1]) {
        RefKind::Tag
    } else {
        RefKind::Branch
    }
}

pub open spec fn spec_ref_kind_dir(kind: RefKind) -> Seq<char> {
    match kind {
        RefKind::Tag => "tags"@,
        RefKind::Branch | RefKind::Sha => "heads"@,
    }
}

/// The cache subdirectory of a ref kind (`"tags"` or `"heads"`).
pub fn ref_kind_dir(kind: RefKind) -> (r: &'static str)
    ensures
        r@ == spec_ref_kind_dir(kind),
{
    match kind {
        RefKind::Tag => "tags",
        RefKind::Branch | RefKind::Sha => "heads",
    }
}

/// What the client answers for a full SHA without any lookup.
pub fn resolved_sha(git_ref: &str) -> (r: ResolvedRef)
    requires
        spec_is_full_sha(git_ref@),
    ensures
        r.sha@ == git_ref@,
        r.ref_kind == RefKind::Sha,
        r.published_at is None,
{
    ResolvedRef { sha: git_ref.to_string(), ref_kind: RefKind::Sha, published_at: None }
}

/// The resolution that a cache entry records.
pub fn resolved_from_entry(entry: &CacheEntry) -> (r: ResolvedRef)
    ensures
        r.sha == entry.sha,
        r.ref_kind == cache::spec_entry_kind(entry.ref_kind@),
        r.published_at == entry.published_at,
{
    ResolvedRef {
        sha: entry.sha.clone(),
        ref_kind: entry.ref_kind(),
        published_at: crate::text::clone_opt_string(&entry.published_at),
    }
}

/// The releases of one listing page that carry a publication date, in order.
pub open spec fn dated_releases(batch: Seq<ReleaseListItem>) -> Seq<Release>
    decreases batch.len(),
{
    if batch.len() == 0 {
        Seq::empty()
    } else {
        let rest = dated_releases(batch.drop_last());
        let item = batch.last();
        match item.published_at {
            Some(p) => rest.push(
                Release { tag_name: item.tag_name, published_at: p, prerelease: item.prerelease },
            ),
            None => rest,
        }
    }
}

/// The page size the listing asks for, and the number of pages it reads at most.
pub const RELEASES_PER_PAGE: usize = 100;
pub const MAX_RELEASE_PAGES: u32 = 10;

/// Adds page `page` (one-based) of the releases listing to `all`, keeping
/// only entries with a publication date, and says whether the next page must
/// be read: the page was full and fewer than the maximum number of pages were read.
pub fn absorb_release_page(all: &mut Vec<Release>, batch: Vec<ReleaseListItem>, page: u32) -> (more:
    bool)
    ensures
        final(all)@ == old(all)@ + dated_releases(batch@),
        more == (batch@.len() >= RELEASES_PER_PAGE && page < MAX_RELEASE_PAGES),
{
    let n = batch.len();
    let ghost start = all@;
    let mut i: usize = 0;
    while i < n
        invariant
            n == batch.len(),
            0 <= i <= n,
            all@ == start + dated_releases(batch@.take(i as int)),
        decreases n - i,
    {
        let item = &batch[i];
        proof {
            assert(batch@.take(i as int + 1).drop_last() == batch@.take(i as int));
        }
        match &item.published_at {
            Some(p) => {
                all.push(
                    Release {
                        tag_name: item.tag_name.clone(),
                        published_at: p.clone(),
                        prerelease: item.prerelease,
                    },
                );
            },
            None => {},
        }
        i += 1;
    }
    proof {
        assert(batch@.take(n as int) == batch@);
    }
    n >= RELEASES_PER_PAGE && page < MAX_RELEASE_PAGES
}


/// What the client does next about the cache while answering a request.
#[derive(Debug, Clone, PartialEq, Eq)]
pub enum CacheStep {
    /// Look in the cache first.
    ReadCache,
    /// Ask the API.
    Fetch,
    /// Give up with this error.
    Fail(GitHubError),
}

/// The first step of a request: the cache unless it is disabled, else the
/// API, which offline mode forbids.
pub fn first_step(no_cache: bool, offline: bool) -> (r: CacheStep)
    ensures
        !no_cache ==> r == CacheStep::ReadCache,
        no_cache && offline ==> r == CacheStep::Fail(GitHubError::Offline),
        no_cache && !offline ==> r == CacheStep::Fetch,
{
    if !no_cache {
        CacheStep::ReadCache
    } else if offline {
        CacheStep::Fail(GitHubError::Offline)
    } else {
        CacheStep::Fetch
    }
}

/// The step after the cache had no entry: the API, unless offline.
pub fn after_cache_miss(offline: bool) -> (r: CacheStep)
    ensures
        offline ==> r == CacheStep::Fail(GitHubError::Offline),
        !offline ==> r == CacheStep::Fetch,
{
    if offline {
        CacheStep::Fail(GitHubError::Offline)
    } else {
        CacheStep::Fetch
    }
}

/// Whether an answer from the API is written to the cache.
pub fn writes_cache(no_cache: bool) -> (r: bool)
    ensures
        r == !no_cache,
{
    !no_cache
}

/// Whether resolving a ref of this kind also asks for its release date.
pub fn wants_release_date(kind: RefKind) -> (r: bool)
    ensures
        r == (kind == RefKind::Tag),
{
    kind == RefKind::Tag
}

/// The API path of a ref of this kind: `tags/...` or `heads/...`; `None`
/// for a SHA, which is never looked up.
pub open spec fn spec_ref_api_path(kind: RefKind, git_ref: Seq<char>) -> Option<Seq<char>> {
    match kind {
        RefKind::Tag => Some("tags/"@ + git_ref),
        RefKind::Branch => Some("heads/"@ + git_ref),
        RefKind::Sha => None,
    }
}

pub fn ref_api_path(kind: RefKind, git_ref: &str) -> (r: Option<String>)
    ensures
        crate::engine::opt_view(r) == spec_ref_api_path(kind, git_ref@),
{
    proof {
        reveal_strlit("tags/");
        reveal_strlit("heads/");
    }
    match kind {
        RefKind::Tag => {
            let mut s = "tags/".to_string();
            push_str(&mut s, git_ref);
            Some(s)
        },
        RefKind::Branch => {
            let mut s = "heads/".to_string();
            push_str(&mut s, git_ref);
            Some(s)
        },
        RefKind::Sha => None,
    }
}

/// The API address of something under a repository: the base, then
/// `/repos/owner/repo/` and `rest`.
pub open spec fn spec_repo_url(base: Seq<char>, owner: Seq<char>, repo: Seq<char>, rest: Seq<char>) -> Seq<char> {
    base + "/repos/"@ + owner + "/"@ + repo + "/"@ + rest
}

fn repo_url(base: &str, owner: &str, repo: &str) -> (r: String)
    ensures
        r@ == spec_repo_url(base@, owner@, repo@, Seq::empty()),
{
    let mut s = String::new();
    push_str(&mut s, base);
    push_str(&mut s, "/repos/");
    push_str(&mut s, owner);
    push_str(&mut s, "/");
    push_str(&mut s, repo);
    push_str(&mut s, "/");
    proof {
        assert(s@ =~= spec_repo_url(base@, owner@, repo@, Seq::empty()));
    }
    s
}

/// The address of page `page` of a repository's releases.
pub fn releases_url(base: &str, owner: &str, repo: &str, page: u32) -> (r: String)
    ensures
        r@ == spec_repo_url(
            base@,
            owner@,
            repo@,
            "releases?per_page="@ + crate::render::dec_string(RELEASES_PER_PAGE as nat) + "&page="@
                + crate::render::dec_string(page as nat),
        ),
{
    let mut s = repo_url(base, owner, repo);
    let ghost head = s@;
    push_str(&mut s, "releases?per_page=");
    push_decimal(&mut s, RELEASES_PER_PAGE as u64);
    push_str(&mut s, "&page=");
    push_decimal(&mut s, page as u64);
    proof {
        assert(s@ =~= spec_repo_url(
            base@,
            owner@,
            repo@,
            "releases?per_page="@ + crate::render::dec_string(RELEASES_PER_PAGE as nat) + "&page="@
                + crate::render::dec_string(page as nat),
        ));
    }
    s
}

fn repo_url_with(base: &str, owner: &str, repo: &str, a: &str, b: &str) -> (r: String)
    ensures
        r@ == spec_repo_url(base@, owner@, repo@, a@ + b@),
{
    let mut s = repo_url(base, owner, repo);
    push_str(&mut s, a);
    push_str(&mut s, b);
    proof {
        assert(s@ =~= spec_repo_url(base@, owner@, repo@, a@ + b@));
    }
    s
}

/// The address of a ref, given its API path (`tags/...` or `heads/...`).
pub fn ref_url(base: &str, owner: &str, repo: &str, ref_path: &str) -> (r: String)
    ensures
        r@ == spec_repo_url(base@, owner@, repo@, "git/ref/"@ + ref_path@),
{
    repo_url_with(base, owner, repo, "git/ref/", ref_path)
}

/// The address of an annotated tag object.
pub fn tag_object_url(base: &str, owner: &str, repo: &str, sha: &str) -> (r: String)
    ensures
        r@ == spec_repo_url(base@, owner@, repo@, "git/tags/"@ + sha@),
{
    repo_url_with(base, owner, repo, "git/tags/", sha)
}

/// The address of the release of a tag.
pub fn release_url(base: &str, owner: &str, repo: &str, tag: &str) -> (r: String)
    ensures
        r@ == spec_repo_url(base@, owner@, repo@, "releases/tags/"@ + tag@),
{
    repo_url_with(base, owner, repo, "releases/tags/", tag)
}

/// A ref that points at an annotated tag object has to be followed to the
/// commit.
pub fn points_at_tag_object(object_kind: &str) -> (r: bool)
    ensures
        r == (object_kind@ == "tag"@),
{
    crate::text::str_eq(object_kind, "tag")
}

/// The error of a failed request by its HTTP status: `not_found` for 404,
/// rate limiting for 403 and 429, else the status itself.
pub fn status_error(code: u16, not_found: GitHubError) -> (r: GitHubError)
    ensures
        code == 404 ==> r == not_found,
        (code == 403 || code == 429) ==> r == GitHubError::RateLimited,
        code != 404 && code != 403 && code != 429 ==> (r matches GitHubError::Http { status, message }
            && status == code && message@.len() == 0),
{
    if code == 404 {
        not_found
    } else if code == 403 || code == 429 {
        GitHubError::RateLimited
    } else {
        GitHubError::Http { status: code, message: String::new() }
    }
}

} // verus!
