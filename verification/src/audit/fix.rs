//! Fixes for audit findings: pin the SHA of the repository's newest version
//! tag, with the tag as a comment.
use vstd::prelude::*;

use crate::github::tags::GitHubTag;
use crate::patch::{action_name, line_views, patch_line, patch_step, spec_action_name};
use crate::text::{push_str, str_eq};
use crate::update::{any_tag, newest_among, newest_version_tag};

use super::Finding;

verus! {

/// A planned (or applied) fix of one finding.
#[derive(Debug, Clone, PartialEq, Eq)]
pub struct AuditFix {
    pub finding_id: String,
    pub file: String,
    pub line: usize,
    pub applied: bool,
    pub new_ref: String,
    pub new_version_comment: String,
    /// The `uses:` text the fix replaces.
    pub old_uses: String,
    /// The `uses:` text the fix writes.
    pub new_uses: String,
}

/// `x` is the fix of finding `f` with tag `t`.
pub open spec fn is_fix_of(x: AuditFix, f: Finding, t: GitHubTag) -> bool {
    let name = spec_action_name(f.action.repo@, f.action.path@);
    &&& x.finding_id == f.id
    &&& x.file == f.action.file
    &&& x.line == f.action.line
    &&& !x.applied
    &&& x.new_ref == t.sha
    &&& x.new_version_comment == t.name
    &&& x.old_uses@ == name + "@"@ + f.action.ref_name@
    &&& x.new_uses@ == name + "@"@ + t.sha@ + " # "@ + t.name@
}

/// The fix of a finding, given its repository's tags: none for a finding
/// that cannot be fixed or a repository without version tags.
pub fn fix_for(finding: &Finding, tags: &[GitHubTag]) -> (r: Option<AuditFix>)
    ensures
        !finding.fixable ==> r is None,
        finding.fixable ==> match newest_among(tags@, any_tag(), tags@.len() as int) {
            Some(i) => (r matches Some(x) && is_fix_of(x, *finding, tags@[i])),
            None => r is None,
        },
{
    if !finding.fixable {
        return None;
    }
    let i = match newest_version_tag(tags) {
        Some(i) => i,
        None => {
            return None;
        },
    };
    proof {
        crate::update::lemma_newest_bound(tags@, any_tag(), tags@.len() as int);
    }
    let tag = &tags[i];
    let name = action_name(finding.action.repo.as_str(), finding.action.path.as_str());
    let mut new_uses = name.clone();
    push_str(&mut new_uses, "@");
    push_str(&mut new_uses, tag.sha.as_str());
    push_str(&mut new_uses, " # ");
    push_str(&mut new_uses, tag.name.as_str());
    let mut old_uses = name;
    push_str(&mut old_uses, "@");
    push_str(&mut old_uses, finding.action.ref_name.as_str());
    proof {
        reveal_strlit("@");
        reveal_strlit(" # ");
    }
    Some(
        AuditFix {
            finding_id: finding.id.clone(),
            file: finding.action.file.clone(),
            line: finding.action.line,
            applied: false,
            new_ref: tag.sha.clone(),
            new_version_comment: tag.name.clone(),
            old_uses,
            new_uses,
        },
    )
}

/// The fixes of `file` applied in order to its lines, up to the first error.
pub open spec fn patch_fixes(lines: Seq<Seq<char>>, fixes: Seq<AuditFix>, file: Seq<char>) -> Result<
    Seq<Seq<char>>,
    Seq<char>,
>
    decreases fixes.len(),
{
    if fixes.len() == 0 {
        Ok(lines)
    } else {
        match patch_fixes(lines, fixes.drop_last(), file) {
            Err(e) => Err(e),
            Ok(ls) => {
                let x = fixes.last();
                if x.file@ == file {
                    patch_step(ls, x.file@, x.line as nat, x.old_uses@, x.new_uses@)
                } else {
                    Ok(ls)
                }
            },
        }
    }
}

pub proof fn lemma_patch_fixes_err(lines: Seq<Seq<char>>, fixes: Seq<AuditFix>, file: Seq<char>, n: int)
    requires
        0 <= n <= fixes.len(),
        patch_fixes(lines, fixes.take(n), file) is Err,
    ensures
        patch_fixes(lines, fixes, file) == patch_fixes(lines, fixes.take(n), file),
    decreases fixes.len() - n,
{
    if n < fixes.len() {
        assert(fixes.take(n + 1).drop_last() == fixes.take(n));
        lemma_patch_fixes_err(lines, fixes, file, n + 1);
    } else {
        assert(fixes.take(n) == fixes);
    }
}

/// Applies the fixes of `file` to its lines in order, marking each applied
/// fix, and stops at the first fix that cannot be applied.
pub fn apply_fixes_in_file(lines: &mut Vec<String>, fixes: &mut Vec<AuditFix>, file: &str) -> (r: Result<(), String>)
    ensures
        final(fixes)@.len() == old(fixes)@.len(),
        forall|k: int|
            0 <= k < old(fixes)@.len() ==> {
                let x = #[trigger] final(fixes)@[k];
                let y = old(fixes)@[k];
                &&& x.finding_id == y.finding_id
                &&& x.file == y.file
                &&& x.line == y.line
                &&& x.new_ref == y.new_ref
                &&& x.new_version_comment == y.new_version_comment
                &&& x.old_uses@ == y.old_uses@
                &&& x.new_uses@ == y.new_uses@
                &&& x.applied == (y.applied || (y.file@ == file@ && patch_fixes(
                    line_views(old(lines)@),
                    old(fixes)@.take(k + 1),
                    file@,
                ) is Ok))
            },
        match patch_fixes(line_views(old(lines)@), old(fixes)@, file@) {
            Ok(ls) => r is Ok && line_views(final(lines)@) == ls,
            Err(e) => r matches Err(m) && m@ == e,
        },
{
    let ghost start = line_views(lines@);
    let ghost orig = fixes@;
    let mut i: usize = 0;
    while i < fixes.len()
        invariant
            0 <= i <= fixes.len(),
            start == line_views(old(lines)@),
            orig == old(fixes)@,
            fixes@.len() == orig.len(),
            patch_fixes(start, orig.take(i as int), file@) == Ok::<Seq<Seq<char>>, Seq<char>>(
                line_views(lines@),
            ),
            forall|k: int|
                0 <= k < orig.len() ==> {
                    let x = #[trigger] fixes@[k];
                    let y = orig[k];
                    &&& x.finding_id == y.finding_id
                    &&& x.file == y.file
                    &&& x.line == y.line
                    &&& x.new_ref == y.new_ref
                    &&& x.new_version_comment == y.new_version_comment
                    &&& x.old_uses == y.old_uses
                    &&& x.new_uses == y.new_uses
                    &&& k < i ==> x.applied == (y.applied || (y.file@ == file@ && patch_fixes(
                        start,
                        orig.take(k + 1),
                        file@,
                    ) is Ok))
                    &&& k >= i ==> x.applied == y.applied
                },
        decreases fixes.len() - i,
    {
        proof {
            assert(orig.take(i as int + 1).drop_last() == orig.take(i as int));
            assert(orig.take(i as int + 1).last() == orig[i as int]);
        }
        if str_eq(fixes[i].file.as_str(), file) {
            let res = patch_line(
                lines,
                fixes[i].file.as_str(),
                fixes[i].line,
                fixes[i].old_uses.as_str(),
                fixes[i].new_uses.as_str(),
            );
            match res {
                Ok(()) => {},
                Err(m) => {
                    proof {
                        assert(patch_fixes(start, orig.take(i as int + 1), file@) == Err::<
                            Seq<Seq<char>>,
                            Seq<char>,
                        >(m@));
                        lemma_patch_fixes_err(start, orig, file@, i as int + 1);
                        assert forall|k: int| 0 <= k < orig.len() implies {
                            let x = #[trigger] fixes@[k];
                            let y = orig[k];
                            x.applied == (y.applied || (y.file@ == file@ && patch_fixes(
                                start,
                                orig.take(k + 1),
                                file@,
                            ) is Ok))
                        } by {
                            if k >= i {
                                if orig[k].file@ == file@ {
                                    assert(orig.take(k + 1).take(i as int + 1) == orig.take(i as int + 1));
                                    lemma_patch_fixes_err(start, orig.take(k + 1), file@, i as int + 1);
                                }
                            }
                        }
                    }
                    return Err(m);
                },
            }
            let mut fx = fixes[i].clone_fix();
            fx.applied = true;
            fixes.set(i, fx);
        }
        i += 1;
    }
    proof {
        assert(orig.take(orig.len() as int) == orig);
    }
    Ok(())
}

impl AuditFix {
    /// A field-by-field copy of this fix.
    pub fn clone_fix(&self) -> (r: Self)
        ensures
            r == *self,
    {
        AuditFix {
            finding_id: self.finding_id.clone(),
            file: self.file.clone(),
            line: self.line,
            applied: self.applied,
            new_ref: self.new_ref.clone(),
            new_version_comment: self.new_version_comment.clone(),
            old_uses: self.old_uses.clone(),
            new_uses: self.new_uses.clone(),
        }
    }
}

} // verus!
