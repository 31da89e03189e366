//! Version tags of a repository, the paging of the tags listing and the
//! file that caches it.
use vstd::prelude::*;

use crate::audit::{is_version_tag, spec_is_version_tag};
use crate::text::{
    alpha, chars_of, contains_seq, digit, find_char, find_char_from, find_seq, first_index_of,
    lit, push_str, slice_vec, split_any, split_on_any, string_of, trim, trim_vec,
};

verus! {

/// A version tag and the commit it points to.
#[derive(Debug, Clone, PartialEq, Eq)]
pub struct GitHubTag {
    pub name: String,
    pub sha: String,
}

impl GitHubTag {
    /// A field-by-field copy of this tag.
    pub fn duplicate(&self) -> (r: Self)
        ensures
            r == *self,
    {
        GitHubTag { name: self.name.clone(), sha: self.sha.clone() }
    }
}

/// The characters a cache file name keeps as they are.
pub open spec fn keeps(c: char) -> bool {
    crate::text::is_digit(c) || crate::text::is_alpha(c) || c == '-' || c == '_'
}

/// `value` with every character but ASCII letters, digits, `-` and `_`
/// replaced by `-`.
pub open spec fn spec_sanitize(value: Seq<char>) -> Seq<char> {
    value.map_values(|c: char| if keeps(c) { c } else { '-' })
}

/// A name that is safe in a file name.
pub fn sanitize(value: &str) -> (r: String)
    ensures
        r@ == spec_sanitize(value@),
{
    let cs = chars_of(value);
    let mut out: Vec<char> = Vec::new();
    let mut i: usize = 0;
    while i < cs.len()
        invariant
            0 <= i <= cs.len(),
            cs@ == value@,
            out@ == spec_sanitize(cs@.take(i as int)),
        decreases cs.len() - i,
    {
        let c = cs[i];
        if digit(c) || alpha(c) || c == '-' || c == '_' {
            out.push(c);
        } else {
            out.push('-');
        }
        proof {
            assert(out@ =~= spec_sanitize(cs@.take(i as int + 1)));
        }
        i += 1;
    }
    proof {
        assert(cs@.take(cs@.len() as int) == cs@);
    }
    string_of(&out)
}

/// The name of the cache file of a repository's tags.
pub open spec fn spec_tags_cache_file(owner: Seq<char>, name: Seq<char>) -> Seq<char> {
    spec_sanitize(owner) + "--"@ + spec_sanitize(name) + ".json"@
}

/// The cache file name of the tags of `owner/name`.
pub fn tags_cache_file(owner: &str, name: &str) -> (r: String)
    ensures
        r@ == spec_tags_cache_file(owner@, name@),
{
    let mut s = sanitize(owner);
    push_str(&mut s, "--");
    let n = sanitize(name);
    push_str(&mut s, n.as_str());
    push_str(&mut s, ".json");
    proof {
        reveal_strlit("--");
        reveal_strlit(".json");
    }
    s
}

/// The target of the `rel="next"` link of one part of a `Link` header.
pub open spec fn next_in_part(part: Seq<char>) -> Option<Seq<char>> {
    let p = trim(part);
    if !contains_seq(p, "rel=\"next\""@) {
        None
    } else {
        match first_index_of(p, '<') {
            None => None,
            Some(i) => match first_index_of(p.skip(i + 1), '>') {
                None => None,
                Some(j) => Some(p.subrange(i + 1, i + 1 + j)),
            },
        }
    }
}

/// The first part that has a next link.
pub open spec fn next_in_parts(parts: Seq<Seq<char>>) -> Option<Seq<char>>
    decreases parts.len(),
{
    if parts.len() == 0 {
        None
    } else {
        match next_in_part(parts[0]) {
            Some(u) => Some(u),
            None => next_in_parts(parts.drop_first()),
        }
    }
}

/// The URL of the next page named by a `Link` header.
pub open spec fn spec_next_link_url(link: Seq<char>) -> Option<Seq<char>> {
    next_in_parts(split_any(link, seq![',']))
}

fn next_of_part(part: &[char]) -> (r: Option<String>)
    ensures
        crate::engine::opt_view(r) == next_in_part(part@),
{
    let p = trim_vec(part);
    let marker = lit("rel=\"next\"");
    proof {
        reveal_strlit("rel=\"next\"");
    }
    if find_seq(&p, &marker).is_none() {
        return None;
    }
    match find_char(&p, '<') {
        None => None,
        Some(i) => {
            let tail = slice_vec(&p, i + 1, p.len());
            match find_char(&tail, '>') {
                None => None,
                Some(j) => {
                    proof {
                        assert(tail@ == p@.skip(i + 1));
                    }
                    let url = slice_vec(&p, i + 1, i + 1 + j);
                    Some(string_of(&url))
                },
            }
        },
    }
}

/// The URL of the next page that a `Link` header names, if any.
pub fn next_link_url(link: &str) -> (r: Option<String>)
    ensures
        crate::engine::opt_view(r) == spec_next_link_url(link@),
{
    let cs = chars_of(link);
    let seps = vec![','];
    let parts = split_on_any(&cs, &seps);
    let ghost ps = parts@.map_values(|l: Vec<char>| l@);
    proof {
        assert(seps@ == seq![',']);
        assert(ps.skip(0) =~= ps);
    }
    let mut k: usize = 0;
    while k < parts.len()
        invariant
            0 <= k <= parts.len(),
            ps == parts@.map_values(|l: Vec<char>| l@),
            next_in_parts(ps) == spec_next_link_url(link@),
            next_in_parts(ps) == next_in_parts(ps.skip(k as int)),
        decreases parts.len() - k,
    {
        proof {
            assert(ps.skip(k as int)[0] == parts@[k as int]@);
            assert(ps.skip(k as int).drop_first() == ps.skip(k as int + 1));
        }
        match next_of_part(&parts[k]) {
            Some(u) => {
                return Some(u);
            },
            None => {},
        }
        k += 1;
    }
    proof {
        assert(ps.skip(k as int) =~= Seq::<Seq<char>>::empty());
    }
    None
}

/// The tags among `tags` whose names are version tags, in order.
pub open spec fn version_tags_of(tags: Seq<GitHubTag>) -> Seq<GitHubTag>
    decreases tags.len(),
{
    if tags.len() == 0 {
        Seq::empty()
    } else if spec_is_version_tag(tags.last().name@) {
        version_tags_of(tags.drop_last()).push(tags.last())
    } else {
        version_tags_of(tags.drop_last())
    }
}

/// Keeps the version tags of a page of listed tags.
pub fn keep_version_tags(tags: Vec<GitHubTag>) -> (r: Vec<GitHubTag>)
    ensures
        r@ == version_tags_of(tags@),
{
    let mut out: Vec<GitHubTag> = Vec::new();
    let mut i: usize = 0;
    while i < tags.len()
        invariant
            0 <= i <= tags.len(),
            out@ == version_tags_of(tags@.take(i as int)),
        decreases tags.len() - i,
    {
        proof {
            assert(tags@.take(i as int + 1).drop_last() == tags@.take(i as int));
        }
        if is_version_tag(tags[i].name.as_str()) {
            out.push(tags[i].duplicate());
        }
        i += 1;
    }
    proof {
        assert(tags@.take(tags@.len() as int) == tags@);
    }
    out
}

/// Number of `/` at the end of `s`.
pub open spec fn trailing_slashes(s: Seq<char>) -> nat
    decreases s.len(),
{
    if s.len() > 0 && s.last() == '/' {
        1 + trailing_slashes(s.drop_last())
    } else {
        0
    }
}

/// The first page of a repository's tags: the API base without its trailing
/// slashes, then `/repos/owner/name/tags`, a hundred to a page.
pub open spec fn spec_tags_url(base: Seq<char>, owner: Seq<char>, name: Seq<char>) -> Seq<char> {
    base.take(base.len() - trailing_slashes(base)) + "/repos/"@ + owner + "/"@ + name
        + "/tags?per_page=100&page=1"@
}

/// The URL of the first page of the tags of `owner/name`.
pub fn tags_url(api_base: &str, owner: &str, name: &str) -> (r: String)
    ensures
        r@ == spec_tags_url(api_base@, owner@, name@),
{
    let cs = chars_of(api_base);
    let mut n: usize = cs.len();
    proof {
        assert(cs@.take(cs.len() as int) =~= cs@);
    }
    while n > 0 && cs[n - 1] == '/'
        invariant
            0 <= n <= cs.len(),
            cs@ == api_base@,
            trailing_slashes(cs@) == (cs.len() - n) + trailing_slashes(cs@.take(n as int)),
        decreases n,
    {
        proof {
            assert(cs@.take(n as int).drop_last() =~= cs@.take(n - 1));
        }
        n -= 1;
    }
    proof {
        if n > 0 {
            assert(cs@.take(n as int).last() == cs@[n - 1]);
        }
        assert(trailing_slashes(cs@.take(n as int)) == 0);
    }
    let mut s = string_of(&slice_vec(&cs, 0, n));
    push_str(&mut s, "/repos/");
    push_str(&mut s, owner);
    push_str(&mut s, "/");
    push_str(&mut s, name);
    push_str(&mut s, "/tags?per_page=100&page=1");
    proof {
        assert(s@ =~= spec_tags_url(api_base@, owner@, name@));
    }
    s
}

/// The error when offline mode finds no cached tags for `owner/name`.
pub open spec fn offline_tags_text(owner: Seq<char>, name: Seq<char>) -> Seq<char> {
    "offline mode requires cached GitHub tag data for "@ + owner + "/"@ + name
        + ", but no cache entry was found"@
}

pub fn offline_tags_message(owner: &str, name: &str) -> (r: String)
    ensures
        r@ == offline_tags_text(owner@, name@),
{
    let mut s = String::new();
    push_str(&mut s, "offline mode requires cached GitHub tag data for ");
    push_str(&mut s, owner);
    push_str(&mut s, "/");
    push_str(&mut s, name);
    push_str(&mut s, ", but no cache entry was found");
    proof {
        assert(s@ =~= offline_tags_text(owner@, name@));
    }
    s
}

} // verus!
