//! `picky doctor`: sanity-check the repository's submodule state against
//! `.gitmodules`: dangling gitlinks, orphaned submodule git dirs left behind
//! by hand-editing `.gitmodules` instead of `add`/`remove`, and half-edited
//! `.gitmodules` sections. Diagnostic by default (warnings, success);
//! `--strict` fails when issues are found, for a pre-commit hook or CI.

use vstd::prelude::*;

use crate::config::Submodule;
use crate::console::{messages_view, mv, say, Level, Message, MessageView};
use crate::text;
use crate::text::{dec, owned, push_str};

verus! {

/// What the caller observed.
#[derive(Debug)]
pub struct Observed {
    /// The declared submodules' paths.
    pub paths: Vec<String>,
    /// For each declared submodule, whether its worktree `.git` exists but
    /// does not resolve to a git dir.
    pub dangling: Vec<bool>,
    /// The git dirs under `.git/modules`, relative to it, `/`-separated.
    pub gitdirs: Vec<String>,
    /// The `submodule.<name>` section names of `.gitmodules`.
    pub submodule_sections: Vec<String>,
    /// The `picky.<name>` section names of `.gitmodules`.
    pub picky_sections: Vec<String>,
}

/// The findings and the verdict.
#[derive(Debug)]
pub struct Report {
    pub messages: Vec<Message>,
    /// The error `--strict` fails with, if any.
    pub error: Option<String>,
}

pub open spec fn dangling_warnings(paths: Seq<Seq<char>>, dangling: Seq<bool>) -> Seq<MessageView>
    decreases paths.len(),
{
    if paths.len() == 0 {
        Seq::empty()
    } else {
        let prev = dangling_warnings(paths.drop_last(), dangling);
        let i = paths.len() - 1;
        if i < dangling.len() && dangling[i] {
            prev.push(
                mv(
                    Level::Warn,
                    paths[i] + ": dangling gitlink, `picky init "@ + paths[i] + "` will rebuild it"@,
                ),
            )
        } else {
            prev
        }
    }
}

pub open spec fn orphan_warnings(gitdirs: Seq<Seq<char>>, paths: Seq<Seq<char>>) -> Seq<MessageView>
    decreases gitdirs.len(),
{
    if gitdirs.len() == 0 {
        Seq::empty()
    } else {
        let prev = orphan_warnings(gitdirs.drop_last(), paths);
        let g = gitdirs.last();
        if paths.contains(g) {
            prev
        } else {
            prev.push(
                mv(
                    Level::Warn,
                    "orphaned git dir .git/modules/"@ + g
                        + ": no submodule declares this path; remove it with `rm -rf .git/modules/"@
                        + g + "` if it's no longer needed"@,
                ),
            )
        }
    }
}

pub open spec fn section_warnings(picky: Seq<Seq<char>>, subs: Seq<Seq<char>>) -> Seq<MessageView>
    decreases picky.len(),
{
    if picky.len() == 0 {
        Seq::empty()
    } else {
        let prev = section_warnings(picky.drop_last(), subs);
        let n = picky.last();
        if subs.contains(n) {
            prev
        } else {
            prev.push(
                mv(
                    Level::Warn,
                    "picky."@ + n + " section in .gitmodules has no matching submodule."@ + n
                        + " section, probably a half-finished manual edit"@,
                ),
            )
        }
    }
}

/// Every finding, in order: dangling gitlinks, orphaned git dirs, picky
/// sections without a submodule section.
pub open spec fn findings(o: (Seq<Seq<char>>, Seq<bool>, Seq<Seq<char>>, Seq<Seq<char>>, Seq<Seq<char>>)) -> Seq<MessageView> {
    dangling_warnings(o.0, o.1) + orphan_warnings(o.2, o.0) + section_warnings(o.4, o.3)
}

pub open spec fn observed_view(o: Observed) -> (Seq<Seq<char>>, Seq<bool>, Seq<Seq<char>>, Seq<Seq<char>>, Seq<Seq<char>>) {
    (o.paths.deep_view(), o.dangling@, o.gitdirs.deep_view(), o.submodule_sections.deep_view(), o.picky_sections.deep_view())
}

/// The report of `findings`: the warnings, then either success or the
/// count of issues.
pub open spec fn report_messages(f: Seq<MessageView>) -> Seq<MessageView> {
    if f.len() == 0 {
        seq![mv(Level::Success, "no issues found"@)]
    } else {
        f.push(mv(Level::Plain, "  "@ + dec(f.len()) + " issue(s) found"@))
    }
}

fn contains(v: &Vec<String>, s: &String) -> (r: bool)
    ensures
        r == v.deep_view().contains(s@),
{
    crate::commands::sparse::contains_str(v, s)
}

/// Diagnose the observed state; with `strict`, issues make it an error.
pub fn run(o: &Observed, strict: bool) -> (r: Report)
    ensures
        messages_view(r.messages@) == report_messages(findings(observed_view(*o))),
        !strict ==> r.error is None,
        strict ==> (r.error is Some <==> findings(observed_view(*o)).len() > 0),
        strict && findings(observed_view(*o)).len() > 0 ==> (r.error matches Some(e) && e@ == dec(
            findings(observed_view(*o)).len(),
        ) + " issue(s) found (--strict)"@),
{
    let ghost ov = observed_view(*o);
    let mut out: Vec<Message> = Vec::new();
    let mut i: usize = 0;
    while i < o.paths.len()
        invariant
            i <= o.paths.len(),
            ov == observed_view(*o),
            messages_view(out@) == dangling_warnings(ov.0.take(i as int), ov.1),
        decreases o.paths.len() - i,
    {
        assert(ov.0.take(i + 1).drop_last() == ov.0.take(i as int));
        assert(ov.0.take(i + 1)[i as int] == o.paths[i as int]@);
        if i < o.dangling.len() && o.dangling[i] {
            let p = &o.paths[i];
            let mut t = p.clone();
            push_str(&mut t, ": dangling gitlink, `picky init ");
            push_str(&mut t, p.as_str());
            push_str(&mut t, "` will rebuild it");
            say(&mut out, Level::Warn, t);
        }
        i = i + 1;
    }
    assert(ov.0.take(o.paths.len() as int) == ov.0);
    let ghost after_dangling = messages_view(out@);
    let mut j: usize = 0;
    while j < o.gitdirs.len()
        invariant
            j <= o.gitdirs.len(),
            ov == observed_view(*o),
            messages_view(out@) == after_dangling + orphan_warnings(ov.2.take(j as int), ov.0),
        decreases o.gitdirs.len() - j,
    {
        assert(ov.2.take(j + 1).drop_last() == ov.2.take(j as int));
        assert(ov.2.take(j + 1).last() == o.gitdirs[j as int]@);
        let g = &o.gitdirs[j];
        if !contains(&o.paths, g) {
            let mut t = owned("orphaned git dir .git/modules/");
            push_str(&mut t, g.as_str());
            push_str(&mut t, ": no submodule declares this path; remove it with `rm -rf .git/modules/");
            push_str(&mut t, g.as_str());
            push_str(&mut t, "` if it's no longer needed");
            say(&mut out, Level::Warn, t);
            assert(messages_view(out@) =~= after_dangling + orphan_warnings(ov.2.take(j + 1), ov.0));
        }
        j = j + 1;
    }
    assert(ov.2.take(o.gitdirs.len() as int) == ov.2);
    let ghost after_orphans = messages_view(out@);
    let mut k: usize = 0;
    while k < o.picky_sections.len()
        invariant
            k <= o.picky_sections.len(),
            ov == observed_view(*o),
            messages_view(out@) == after_orphans + section_warnings(ov.4.take(k as int), ov.3),
        decreases o.picky_sections.len() - k,
    {
        assert(ov.4.take(k + 1).drop_last() == ov.4.take(k as int));
        assert(ov.4.take(k + 1).last() == o.picky_sections[k as int]@);
        let n = &o.picky_sections[k];
        if !contains(&o.submodule_sections, n) {
            let mut t = owned("picky.");
            push_str(&mut t, n.as_str());
            push_str(&mut t, " section in .gitmodules has no matching submodule.");
            push_str(&mut t, n.as_str());
            push_str(&mut t, " section, probably a half-finished manual edit");
            say(&mut out, Level::Warn, t);
            assert(messages_view(out@) =~= after_orphans + section_warnings(ov.4.take(k + 1), ov.3));
        }
        k = k + 1;
    }
    assert(ov.4.take(o.picky_sections.len() as int) == ov.4);
    let ghost f = messages_view(out@);
    assert(f =~= findings(ov));
    let issues = out.len();
    if issues == 0 {
        let mut m: Vec<Message> = Vec::new();
        say(&mut m, Level::Success, owned("no issues found"));
        assert(messages_view(m@) =~= report_messages(f));
        return Report { messages: m, error: None };
    }
    let n = text::usize_to_string(issues);
    let mut t = owned("  ");
    push_str(&mut t, n.as_str());
    push_str(&mut t, " issue(s) found");
    say(&mut out, Level::Plain, t);
    let error = if strict {
        let mut e = n.clone();
        push_str(&mut e, " issue(s) found (--strict)");
        Some(e)
    } else {
        None
    };
    Report { messages: out, error }
}

} // verus!
