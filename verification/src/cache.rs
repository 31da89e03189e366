//! Where the cache of GitHub answers lives.
use vstd::prelude::*;

use crate::text::{chars_of, push_str};

verus! {

/// The resolved cache directory.
#[derive(Debug, Clone, PartialEq, Eq)]
pub struct CacheDir(pub String);

impl CacheDir {
    /// The resolved directory path.
    pub fn path(&self) -> (r: &str)
        ensures
            r@ == self.0@,
    {
        self.0.as_str()
    }
}

/// `name` appended to the directory `base` as one more path component.
pub open spec fn join_component(base: Seq<char>, name: Seq<char>) -> Seq<char> {
    if base.len() == 0 {
        name
    } else if base.last() == '/' {
        base + name
    } else {
        base + "/"@ + name
    }
}

/// Appends the relative component `name` to the directory `base`.
pub fn join_path(base: &str, name: &str) -> (r: String)
    ensures
        r@ == join_component(base@, name@),
{
    let cs = chars_of(base);
    let mut out = base.to_string();
    if cs.len() > 0 && cs[cs.len() - 1] != '/' {
        push_str(&mut out, "/");
    }
    push_str(&mut out, name);
    proof {
        reveal_strlit("/");
    }
    out
}

/// The cache directory chosen from an explicit override (the `ACTIONEER_CACHE`
/// variable) and the platform's cache base: a non-empty override wins; else
/// `actioneer` under the platform base; none when neither is known.
pub open spec fn spec_cache_dir(env_override: Option<Seq<char>>, platform_base: Option<Seq<char>>) -> Option<
    Seq<char>,
> {
    match env_override {
        Some(p) if p.len() > 0 => Some(p),
        _ => match platform_base {
            Some(b) => Some(join_component(b, "actioneer"@)),
            None => None,
        },
    }
}

/// Resolve the cache directory from the `ACTIONEER_CACHE` value and the
/// platform's cache base directory, both handed in by the caller.
pub fn resolve_cache_dir_with(env_override: Option<&str>, platform_base: Option<&str>) -> (r: Option<
    CacheDir,
>)
    ensures
        match r {
            Some(d) => spec_cache_dir(crate::engine::uses_line::opt_str_view(env_override),
                crate::engine::uses_line::opt_str_view(platform_base)) == Some(d.0@),
            None => spec_cache_dir(crate::engine::uses_line::opt_str_view(env_override),
                crate::engine::uses_line::opt_str_view(platform_base)) is None,
        },
{
    if let Some(p) = env_override {
        if chars_of(p).len() > 0 {
            return Some(CacheDir(p.to_string()));
        }
    }
    match platform_base {
        Some(b) => {
            proof {
                reveal_strlit("actioneer");
            }
            Some(CacheDir(join_path(b, "actioneer")))
        },
        None => None,
    }
}

} // verus!
