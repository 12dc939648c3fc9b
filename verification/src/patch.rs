//! The working-tree patch overlay: the `<patches>/*.patch` files in lexical
//! order, each applied with `git apply --3way` onto the submodule. A failing
//! apply is fatal and leaves conflict markers for the user to resolve.

use vstd::prelude::*;

use crate::config::Submodule;
use crate::console::{mv, Level, Message, MessageView};
use crate::order::{sorted_unique, strictly_sorted};
use crate::text;
use crate::text::{ends_with, join, owned, push_str};

verus! {

/// Whether a file name has the extension `patch` (`Path::extension`): it
/// ends in `.patch` with something before the dot.
pub open spec fn is_patch_name(n: Seq<char>) -> bool {
    n.len() > 6 && ends_with(n, ".patch"@)
}

/// Whether `name` is a patch file name.
pub fn is_patch(name: &str) -> (r: bool)
    ensures
        r == is_patch_name(name@),
{
    let v = text::chars_of(name);
    let suf = text::chars_of(".patch");
    assert(v@.subrange(0, v@.len() as int) == v@);
    if v.len() <= 6 {
        return false;
    }
    text::has_suffix_at(&v, v.len(), &suf)
}

/// The patch files among the entries of the patch directory, in the lexical
/// order they are applied in.
pub fn patch_names(entries: &Vec<String>) -> (r: Vec<String>)
    ensures
        strictly_sorted(r.deep_view()),
        forall|x: Seq<char>| #[trigger] r.deep_view().contains(x) <==> (entries.deep_view().contains(x)
            && is_patch_name(x)),
{
    let mut keep: Vec<String> = Vec::new();
    let mut i: usize = 0;
    while i < entries.len()
        invariant
            i <= entries.len(),
            forall|x: Seq<char>| #[trigger] keep.deep_view().contains(x) <==> (entries.deep_view().take(
                i as int,
            ).contains(x) && is_patch_name(x)),
        decreases entries.len() - i,
    {
        let ghost kv = keep.deep_view();
        let ghost old_t = entries.deep_view().take(i as int);
        let ghost new_t = entries.deep_view().take(i + 1);
        assert(new_t == old_t.push(entries[i as int]@));
        let ghost e = entries[i as int]@;
        if is_patch(entries[i].as_str()) {
            keep.push(entries[i].clone());
            assert(keep.deep_view() =~= kv.push(e));
        }
        assert forall|x: Seq<char>| #[trigger] keep.deep_view().contains(x) implies (new_t.contains(x)
            && is_patch_name(x)) by {
            let m = choose|m: int| 0 <= m < keep.deep_view().len() && keep.deep_view()[m] == x;
            if m < kv.len() {
                assert(kv[m] == x);
                assert(kv.contains(x));
                let k = choose|k: int| 0 <= k < old_t.len() && old_t[k] == x;
                assert(new_t[k] == x);
            } else {
                assert(new_t[i as int] == x);
            }
        }
        assert forall|x: Seq<char>| new_t.contains(x) && is_patch_name(x) implies #[trigger] keep.deep_view().contains(
            x,
        ) by {
            let k = choose|k: int| 0 <= k < new_t.len() && new_t[k] == x;
            if k < i {
                assert(old_t[k] == x);
                assert(old_t.contains(x));
                assert(kv.contains(x));
                let m = choose|m: int| 0 <= m < kv.len() && kv[m] == x;
                assert(keep.deep_view()[m] == x);
            } else {
                assert(keep.deep_view()[kv.len() as int] == x);
            }
        }
        i = i + 1;
    }
    assert(entries.deep_view().take(entries.len() as int) == entries.deep_view());
    sorted_unique(&keep)
}

/// Whether the patch directory holds anything to apply.
pub open spec fn has_patches(entries: Seq<Seq<char>>) -> bool {
    exists|i: int| 0 <= i < entries.len() && is_patch_name(#[trigger] entries[i])
}

/// Where a patch stack run starts, given whether the submodule's patch
/// directory is a directory (`is_dir`) and its entries: nothing to do when
/// no directory is declared, it is not a directory, or it holds no patch
/// file; else the opening step and the patches in the order they apply.
pub fn stack_plan(sm: &Submodule, is_dir: bool, entries: &Vec<String>) -> (r: Option<(Message, Vec<String>)>)
    ensures
        r is None <==> (sm.patches is None || !is_dir || !has_patches(entries.deep_view())),
        r matches Some(x) ==> (sm.patches matches Some(d) && x.0@ == mv(
            Level::Step,
            "Applying patch stack from "@ + d@ + "/"@,
        )),
        r matches Some(x) ==> strictly_sorted(x.1.deep_view()),
        r matches Some(x) ==> forall|n: Seq<char>| #[trigger] x.1.deep_view().contains(n) <==> (
        entries.deep_view().contains(n) && is_patch_name(n)),
{
    match &sm.patches {
        None => None,
        Some(dir) => {
            if !is_dir {
                return None;
            }
            let names = patch_names(entries);
            if names.len() == 0 {
                assert forall|i: int| 0 <= i < entries.deep_view().len() implies !is_patch_name(
                    #[trigger] entries.deep_view()[i],
                ) by {
                    let n = entries.deep_view()[i];
                    if is_patch_name(n) {
                        assert(entries.deep_view().contains(n));
                        assert(names.deep_view().contains(n));
                    }
                }
                None
            } else {
                proof {
                    let n = names.deep_view()[0];
                    assert(names.deep_view().contains(n));
                    let k = choose|k: int| 0 <= k < entries.deep_view().len() && entries.deep_view()[k] == n;
                    assert(is_patch_name(entries.deep_view()[k]));
                }
                Some((stack_step(dir.as_str()), names))
            }
        },
    }
}

/// `git apply --3way <patch>`; the real apply, not `--check`, since a
/// drifted context makes `--3way` fail and leave conflict markers, which a
/// separate check does not predict.
pub fn apply_args(patch_path: &str) -> (args: Vec<String>)
    ensures
        args.deep_view() == seq!["apply"@, "--3way"@, patch_path@],
{
    crate::sparse::argv3("apply", "--3way", patch_path)
}

/// The step that opens a patch stack run.
pub fn stack_step(dir: &str) -> (m: Message)
    ensures
        m@ == mv(Level::Step, "Applying patch stack from "@ + dir@ + "/"@),
{
    let mut t = owned("Applying patch stack from ");
    push_str(&mut t, dir);
    push_str(&mut t, "/");
    Message::new(Level::Step, t)
}

/// The line reporting one patch: applied, or failed.
pub fn patch_report(name: &str, applied: bool) -> (m: Message)
    ensures
        applied ==> m@ == mv(Level::Item, "applied  "@ + name@),
        !applied ==> m@ == mv(Level::Error, "FAILED   "@ + name@),
{
    if applied {
        let mut t = owned("applied  ");
        push_str(&mut t, name);
        Message::new(Level::Item, t)
    } else {
        let mut t = owned("FAILED   ");
        push_str(&mut t, name);
        Message::new(Level::Error, t)
    }
}

/// The error once some patches failed: which, and how to recover.
pub fn stack_failure(sm: &Submodule, dir: &str, failed: &Vec<String>) -> (m: String)
    ensures
        m@ == "patch(es) need rebasing: "@ + join(failed.deep_view(), ", "@)
            + "\n  Conflict markers are left in "@ + sm.path@
            + ": resolve them, regenerate the patch (git -C "@ + sm.path@ + " diff HEAD > "@ + dir@
            + "/...), or retire it."@,
{
    let mut m = owned("patch(es) need rebasing: ");
    let j = text::join_strings(failed, ", ");
    push_str(&mut m, j.as_str());
    push_str(&mut m, "\n  Conflict markers are left in ");
    push_str(&mut m, sm.path.as_str());
    push_str(&mut m, ": resolve them, regenerate the patch (git -C ");
    push_str(&mut m, sm.path.as_str());
    push_str(&mut m, " diff HEAD > ");
    push_str(&mut m, dir);
    push_str(&mut m, "/...), or retire it.");
    m
}

/// The tally of a patch stack run: how many patches applied, and the names
/// of those that failed, in the order they were tried.
#[derive(Debug)]
pub struct StackRun {
    pub applied: usize,
    pub failed: Vec<String>,
}

impl StackRun {
    /// A run that has tried nothing yet.
    pub fn new() -> (r: StackRun)
        ensures
            r.applied == 0,
            r.failed@.len() == 0,
    {
        StackRun { applied: 0, failed: Vec::new() }
    }

    /// Record the outcome of applying the patch `name`, and the line that
    /// reports it.
    pub fn record(&mut self, name: &str, applied: bool) -> (m: Message)
        requires
            old(self).applied < usize::MAX,
        ensures
            applied ==> final(self).applied == old(self).applied + 1
                && final(self).failed.deep_view() == old(self).failed.deep_view(),
            !applied ==> final(self).applied == old(self).applied
                && final(self).failed.deep_view() == old(self).failed.deep_view().push(name@),
            applied ==> m@ == mv(Level::Item, "applied  "@ + name@),
            !applied ==> m@ == mv(Level::Error, "FAILED   "@ + name@),
    {
        if applied {
            self.applied = self.applied + 1;
        } else {
            let ghost before = self.failed.deep_view();
            self.failed.push(owned(name));
            assert(self.failed.deep_view() =~= before.push(name@));
        }
        patch_report(name, applied)
    }

    /// How the run ends: the number applied when every patch applied, else
    /// the error naming the failed ones.
    pub fn finish(&self, sm: &Submodule, dir: &str) -> (r: Result<usize, String>)
        ensures
            self.failed@.len() == 0 ==> r == Ok::<usize, String>(self.applied),
            self.failed@.len() > 0 ==> (r matches Err(m) && m@ == "patch(es) need rebasing: "@ + join(
                self.failed.deep_view(),
                ", "@,
            ) + "\n  Conflict markers are left in "@ + sm.path@
                + ": resolve them, regenerate the patch (git -C "@ + sm.path@ + " diff HEAD > "@ + dir@
                + "/...), or retire it."@),
    {
        if self.failed.len() == 0 {
            Ok(self.applied)
        } else {
            Err(stack_failure(sm, dir, &self.failed))
        }
    }
}

} // verus!
