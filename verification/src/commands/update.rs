//! `picky update [<path>] [<ref>] …`: bump the pin, or refresh at the
//! current one; re-checkout; re-apply the patch stack. This module resolves
//! the arguments to submodules and decides each step's git calls and
//! messages; the caller runs them in order.

use vstd::prelude::*;

use crate::config::{
    self, find_of, load_from, lookup_of, names_of, opt_view, ConfigError, GitConfig, Submodule,
    SubmoduleView,
};
use crate::console::{messages_view, mv, say, Level, Message, MessageView};
use crate::sparse::{args_view, fetch_args_of};
use crate::text;
use crate::text::{dec, owned, prefix_upto, push_str};

verus! {

/// Why `picky update` refused its arguments.
#[derive(Debug)]
pub enum UpdateError {
    /// `--all` was combined with a path or ref.
    AllWithTarget,
    /// A submodule could not be determined.
    Lookup(ConfigError),
}

impl UpdateError {
    /// The message shown to the user, as text.
    pub open spec fn message_of(&self) -> Seq<char> {
        match self {
            UpdateError::AllWithTarget => "--all refreshes every submodule at its current pin and can't be combined with a path or ref"@,
            UpdateError::Lookup(e) => e.message_of(),
        }
    }

    /// The message shown to the user.
    pub fn message(&self) -> (m: String)
        ensures
            m@ == self.message_of(),
    {
        match self {
            UpdateError::AllWithTarget => owned(
                "--all refreshes every submodule at its current pin and can't be combined with a path or ref",
            ),
            UpdateError::Lookup(e) => e.message(),
        }
    }
}

/// Why `picky update` refused, as plain values.
pub enum Refusal {
    AllWithTarget,
    NoMatch(Seq<char>),
    NoneDeclared,
    Multiple,
}

impl UpdateError {
    /// This refusal as plain values.
    pub open spec fn refusal_of(&self) -> Refusal {
        match self {
            UpdateError::AllWithTarget => Refusal::AllWithTarget,
            UpdateError::Lookup(ConfigError::NoMatch(n)) => Refusal::NoMatch(n@),
            UpdateError::Lookup(ConfigError::NoneDeclared) => Refusal::NoneDeclared,
            UpdateError::Lookup(ConfigError::Multiple) => Refusal::Multiple,
        }
    }
}

/// Why no lone submodule stands in for a missing path.
pub open spec fn no_lone(cfg: Seq<(Seq<char>, Seq<char>)>) -> Refusal {
    if names_of(cfg).len() == 0 {
        Refusal::NoneDeclared
    } else {
        Refusal::Multiple
    }
}

/// One submodule to update, and the ref to bump it to (none: refresh at
/// the current pin).
#[derive(Debug)]
pub struct Target {
    pub sm: Submodule,
    pub reference: Option<String>,
}

/// What the arguments resolve to.
pub open spec fn targets_of(
    cfg: Seq<(Seq<char>, Seq<char>)>,
    arg1: Option<Seq<char>>,
    arg2: Option<Seq<char>>,
    all: bool,
) -> Result<Seq<(SubmoduleView, Option<Seq<char>>)>, Refusal> {
    let ns = names_of(cfg);
    let lone = if ns.len() == 1 {
        Some(load_from(lookup_of(cfg), ns[0]))
    } else {
        None
    };
    if all {
        if arg1 is Some || arg2 is Some {
            Err(Refusal::AllWithTarget)
        } else {
            Ok(Seq::new(ns.len(), |i: int| (load_from(lookup_of(cfg), ns[i]), None::<Seq<char>>)))
        }
    } else {
        match (arg1, arg2) {
            (Some(a), Some(b)) => match find_of(cfg, a) {
                Some(sm) => Ok(seq![(sm, Some(b))]),
                None => Err(Refusal::NoMatch(a)),
            },
            (Some(a), None) => match find_of(cfg, a) {
                Some(sm) => Ok(seq![(sm, None::<Seq<char>>)]),
                None => match lone {
                    Some(sm) => Ok(seq![(sm, Some(a))]),
                    None => Err(no_lone(cfg)),
                },
            },
            (None, _) => match lone {
                Some(sm) => Ok(seq![(sm, None::<Seq<char>>)]),
                None => Err(no_lone(cfg)),
            },
        }
    }
}

pub open spec fn target_views(v: Seq<Target>) -> Seq<(SubmoduleView, Option<Seq<char>>)> {
    Seq::new(v.len(), |i: int| (v[i].sm@, opt_view(v[i].reference)))
}

/// The submodules to update, and the warning when `--all` finds none.
#[derive(Debug)]
pub struct UpdatePlan {
    pub targets: Vec<Target>,
    pub warning: Option<Message>,
}

/// Resolve the two optional positionals (and `--all`) into the submodules
/// to update. With two arguments it is unambiguous; with one, a value that
/// names a submodule is a path (refresh), otherwise a ref for the lone
/// submodule; `--all` refreshes every submodule and takes no argument.
pub fn run(cfg: &GitConfig, arg1: Option<String>, arg2: Option<String>, all: bool) -> (r: Result<
    UpdatePlan,
    UpdateError,
>)
    ensures
        match targets_of(cfg@, opt_view(arg1), opt_view(arg2), all) {
            Ok(ts) => r matches Ok(p) && target_views(p.targets@) == ts && (p.warning is Some <==> (all
                && ts.len() == 0)) && (p.warning matches Some(m) ==> m@ == mv(
                Level::Warn,
                "no submodules declared in .gitmodules"@,
            )),
            Err(x) => r matches Err(e) && e.refusal_of() == x,
        },
{
    if all {
        if arg1.is_some() || arg2.is_some() {
            return Err(UpdateError::AllWithTarget);
        }
        let subs = config::load_all(cfg);
        let mut v: Vec<Target> = Vec::new();
        let mut i: usize = 0;
        let ghost want = Seq::new(
            names_of(cfg@).len(),
            |i: int| (load_from(lookup_of(cfg@), names_of(cfg@)[i]), None::<Seq<char>>),
        );
        while i < subs.len()
            invariant
                i <= subs.len(),
                subs.len() == names_of(cfg@).len(),
                forall|j: int|
                    0 <= j < subs.len() ==> #[trigger] subs[j]@ == load_from(
                        lookup_of(cfg@),
                        names_of(cfg@)[j],
                    ),
                want == Seq::new(
                    names_of(cfg@).len(),
                    |i: int| (load_from(lookup_of(cfg@), names_of(cfg@)[i]), None::<Seq<char>>),
                ),
                target_views(v@) == want.take(i as int),
            decreases subs.len() - i,
        {
            let ghost before = target_views(v@);
            v.push(Target { sm: subs[i].duplicate(), reference: None });
            assert(target_views(v@) =~= before.push((subs[i as int]@, None::<Seq<char>>)));
            assert(want.take(i + 1) =~= want.take(i as int).push(want[i as int]));
            i = i + 1;
        }
        assert(want.take(subs.len() as int) =~= want);
        let warning = if v.len() == 0 {
            Some(Message::new(Level::Warn, owned("no submodules declared in .gitmodules")))
        } else {
            None
        };
        return Ok(UpdatePlan { targets: v, warning });
    }
    let (sm, reference) = match (arg1, arg2) {
        (Some(a), Some(b)) => match config::find(cfg, a.as_str()) {
            Ok(sm) => (sm, Some(b)),
            Err(e) => {
                return Err(UpdateError::Lookup(e));
            },
        },
        (Some(a), None) => match config::find(cfg, a.as_str()) {
            Ok(sm) => (sm, None),
            Err(_) => match config::only(cfg) {
                Ok(sm) => (sm, Some(a)),
                Err(e) => {
                    return Err(UpdateError::Lookup(e));
                },
            },
        },
        (None, _) => match config::only(cfg) {
            Ok(sm) => (sm, None),
            Err(e) => {
                return Err(UpdateError::Lookup(e));
            },
        },
    };
    let v = vec![Target { sm, reference }];
    assert(target_views(v@) =~= seq![(v[0].sm@, opt_view(v[0].reference))]);
    Ok(UpdatePlan { targets: v, warning: None })
}

/// The submodule with a `--depth` override applied.
pub fn with_depth(sm: Submodule, depth: Option<u32>) -> (r: Submodule)
    ensures
        r@ == (match depth {
            Some(d) => SubmoduleView { depth: Some(d), ..sm@ },
            None => sm@,
        }),
{
    let mut sm = sm;
    match depth {
        Some(d) => {
            sm.depth = Some(d);
        },
        None => {},
    }
    sm
}

/// What to fetch and check out: the ref given to bump to, else the current
/// `HEAD` (a refresh at the pin).
pub fn refresh_target(refarg: &Option<String>, head: &str) -> (r: String)
    ensures
        r@ == (match opt_view(*refarg) {
            Some(x) => x,
            None => head@,
        }),
{
    match refarg {
        Some(x) => x.clone(),
        None => owned(head),
    }
}

/// The step that opens `--fresh`'s rebuild: `git gc` can never reclaim a
/// partial clone's old packs, so the git dir is thrown away.
pub fn rebuild_step() -> (m: Message)
    ensures
        m@ == mv(Level::Step, "Rebuilding from scratch (--fresh)"@),
{
    Message::new(Level::Step, owned("Rebuilding from scratch (--fresh)"))
}

/// The step that opens `--unshallow`'s history fetch.
pub fn history_step() -> (m: Message)
    ensures
        m@ == mv(Level::Step, "Fetching history + tags (blobless)"@),
{
    Message::new(Level::Step, owned("Fetching history + tags (blobless)"))
}

/// The error when the submodule has no checkout to update.
pub fn not_checked_out(sm: &Submodule) -> (m: String)
    ensures
        m@ == sm.path@ + " is not checked out, run `picky init "@ + sm.path@ + "` first"@,
{
    let mut m = sm.path.clone();
    push_str(&mut m, " is not checked out, run `picky init ");
    push_str(&mut m, sm.path.as_str());
    push_str(&mut m, "` first");
    m
}

/// The warning when the working tree has changes (`git status
/// --porcelain` printed something): `checkout -f` discards them.
pub fn dirty_warning(sm: &Submodule, porcelain: &str) -> (r: Option<Message>)
    ensures
        porcelain@.len() == 0 ==> r is None,
        porcelain@.len() > 0 ==> (r matches Some(m) && m@ == mv(
            Level::Warn,
            sm.path@ + " working tree is dirty; resetting to target + patches"@,
        )),
{
    let v = text::chars_of(porcelain);
    if v.len() == 0 {
        None
    } else {
        let mut t = sm.path.clone();
        push_str(&mut t, " working tree is dirty; resetting to target + patches");
        Some(Message::new(Level::Warn, t))
    }
}

/// `--unshallow`'s fetch: full history and all tags, blobless per the
/// filter, unshallowing only a shallow repository.
pub open spec fn history_fetch_of(sm: SubmoduleView, shallow: bool) -> Seq<Seq<char>> {
    let head = seq!["fetch"@, "--tags"@];
    let f = match config::effective_filter_of(sm.filter) {
        Some(x) => head.push("--filter="@ + x),
        None => head,
    };
    let u = if shallow {
        f.push("--unshallow"@)
    } else {
        f
    };
    u + seq!["origin"@, "+refs/heads/*:refs/remotes/origin/*"@]
}

/// The arguments of `--unshallow`'s fetch, for a repository that is shallow
/// or not (`git rev-parse --is-shallow-repository`).
pub fn history_fetch(sm: &Submodule, shallow: bool) -> (args: Vec<String>)
    ensures
        args.deep_view() == history_fetch_of(sm@, shallow),
{
    let mut args = vec![owned("fetch"), owned("--tags")];
    assert(args.deep_view() =~= seq!["fetch"@, "--tags"@]);
    match sm.effective_filter() {
        Some(f) => {
            let mut a = owned("--filter=");
            push_str(&mut a, f);
            args.push(a);
        },
        None => {},
    }
    if shallow {
        args.push(owned("--unshallow"));
    }
    args.push(owned("origin"));
    args.push(owned("+refs/heads/*:refs/remotes/origin/*"));
    assert(args.deep_view() =~= history_fetch_of(sm@, shallow));
    args
}

/// Whether `git rev-parse --is-shallow-repository` answered `true`.
pub fn is_shallow(answer: &str) -> (r: bool)
    ensures
        r == (answer@ == "true"@),
{
    text::str_eq(answer, "true")
}

/// The probe for a remote-tracking branch named `refish`: a bare branch
/// resolves to the stale local ref the fetch never advances, so the fresh
/// `origin/<branch>` is preferred when it exists.
pub fn tracking_probe(refish: &str) -> (args: Vec<String>)
    ensures
        args.deep_view() == seq!["rev-parse"@, "--verify"@, "--quiet"@, "refs/remotes/origin/"@
            + refish@],
{
    let mut r = owned("refs/remotes/origin/");
    push_str(&mut r, refish);
    let args = vec![owned("rev-parse"), owned("--verify"), owned("--quiet"), r];
    assert(args.deep_view() =~= seq!["rev-parse"@, "--verify"@, "--quiet"@, "refs/remotes/origin/"@
        + refish@]);
    args
}

/// The ref to check out after the history fetch: `origin/<refish>` when the
/// remote-tracking branch exists (with its step), else `refish` itself.
pub fn resolve_tracking(refish: &str, exists: bool) -> (r: (String, Option<Message>))
    ensures
        exists ==> r.0@ == "origin/"@ + refish@,
        exists ==> (r.1 matches Some(m) && m@ == mv(
            Level::Step,
            "Resolving '"@ + refish@ + "' to 'origin/"@ + refish@ + "'"@,
        )),
        !exists ==> r.0@ == refish@ && r.1 is None,
{
    if exists {
        let mut t = owned("Resolving '");
        push_str(&mut t, refish);
        push_str(&mut t, "' to 'origin/");
        push_str(&mut t, refish);
        push_str(&mut t, "'");
        let mut n = owned("origin/");
        push_str(&mut n, refish);
        (n, Some(Message::new(Level::Step, t)))
    } else {
        (owned(refish), None)
    }
}

/// The context added when the default bump's targeted fetch fails: many
/// servers refuse to fetch an unadvertised commit SHA directly, which
/// `--unshallow` sidesteps.
pub fn fetch_hint(sm: &Submodule, refish: &str) -> (m: String)
    ensures
        m@ == "fetching '"@ + refish@
            + "' failed; if it's a commit SHA, the remote may be refusing to fetch it directly (only advertised branch/tag tips), try `picky update "@
            + sm.path@ + " "@ + refish@
            + " --unshallow` to fetch full history and resolve it from there"@,
{
    let mut m = owned("fetching '");
    push_str(&mut m, refish);
    push_str(
        &mut m,
        "' failed; if it's a commit SHA, the remote may be refusing to fetch it directly (only advertised branch/tag tips), try `picky update ",
    );
    push_str(&mut m, sm.path.as_str());
    push_str(&mut m, " ");
    push_str(&mut m, refish);
    push_str(&mut m, " --unshallow` to fetch full history and resolve it from there");
    m
}

/// The default bump: fetch only the target ref, shallow and blobless, then
/// check out `FETCH_HEAD` (a bare branch lands on the fresh remote tip).
#[derive(Debug)]
pub struct TargetedFetch {
    pub step: Message,
    pub args: Vec<String>,
    /// The error context when the fetch fails.
    pub hint: String,
    /// What to check out afterwards.
    pub checkout: String,
}

pub fn targeted_fetch(sm: &Submodule, refish: &str) -> (f: TargetedFetch)
    ensures
        f.step@ == mv(Level::Step, "Fetching "@ + refish@ + " (shallow, blobless)"@),
        f.args.deep_view() == fetch_args_of(sm@, refish@),
        f.hint@ == "fetching '"@ + refish@
            + "' failed; if it's a commit SHA, the remote may be refusing to fetch it directly (only advertised branch/tag tips), try `picky update "@
            + sm.path@ + " "@ + refish@
            + " --unshallow` to fetch full history and resolve it from there"@,
        f.checkout@ == "FETCH_HEAD"@,
{
    let (step, args) = crate::sparse::fetch_ref(sm, refish);
    TargetedFetch { step, args, hint: fetch_hint(sm, refish), checkout: owned("FETCH_HEAD") }
}

/// `git add <path>`: records a moved pin in the superproject index; only a
/// bump stages it.
pub fn stage_pin(sm: &Submodule, bumped: bool) -> (r: Option<Vec<String>>)
    ensures
        !bumped ==> r is None,
        bumped ==> (r matches Some(a) && a.deep_view() == seq!["add"@, sm.path@]),
{
    if bumped {
        Some(crate::sparse::argv2("add", sm.path.as_str()))
    } else {
        None
    }
}

/// The closing report of one update.
pub open spec fn summary_of(
    path: Seq<char>,
    bumped: bool,
    old_sha: Seq<char>,
    new_sha: Seq<char>,
    applied: nat,
    no_patches: bool,
) -> Seq<MessageView> {
    let done = if bumped {
        mv(
            Level::Success,
            "bumped "@ + path + ": "@ + prefix_upto(old_sha, 8) + " -> "@ + prefix_upto(new_sha, 8),
        )
    } else {
        mv(Level::Success, "refreshed "@ + path + " at "@ + prefix_upto(new_sha, 8) + " (pin unchanged)"@)
    };
    let patches = mv(
        Level::Plain,
        "  patches applied: "@ + dec(applied) + if no_patches {
            " (--no-patches)"@
        } else {
            Seq::<char>::empty()
        },
    );
    let base = seq![mv(Level::Plain, Seq::<char>::empty()), done, patches];
    if bumped {
        base.push(mv(Level::Plain, "  staged gitlink, commit "@ + path + " to record the pin"@))
    } else {
        base
    }
}

fn short(s: &str) -> (r: String)
    ensures
        r@ == prefix_upto(s@, 8),
{
    let v = text::chars_of(s);
    if v.len() <= 8 {
        text::string_from(&v)
    } else {
        text::string_of(&v, 0, 8)
    }
}

/// Report a finished update: bumped from `old_sha` to `new_sha`, or
/// refreshed at `new_sha`, and how many patches were applied.
pub fn summary(
    sm: &Submodule,
    bumped: bool,
    old_sha: &str,
    new_sha: &str,
    applied: usize,
    no_patches: bool,
) -> (out: Vec<Message>)
    ensures
        messages_view(out@) == summary_of(sm.path@, bumped, old_sha@, new_sha@, applied as nat, no_patches),
{
    let mut out: Vec<Message> = Vec::new();
    say(&mut out, Level::Plain, String::new());
    if bumped {
        let mut t = owned("bumped ");
        push_str(&mut t, sm.path.as_str());
        push_str(&mut t, ": ");
        let a = short(old_sha);
        push_str(&mut t, a.as_str());
        push_str(&mut t, " -> ");
        let b = short(new_sha);
        push_str(&mut t, b.as_str());
        say(&mut out, Level::Success, t);
    } else {
        let mut t = owned("refreshed ");
        push_str(&mut t, sm.path.as_str());
        push_str(&mut t, " at ");
        let b = short(new_sha);
        push_str(&mut t, b.as_str());
        push_str(&mut t, " (pin unchanged)");
        say(&mut out, Level::Success, t);
    }
    let mut p = owned("  patches applied: ");
    let n = text::usize_to_string(applied);
    push_str(&mut p, n.as_str());
    if no_patches {
        push_str(&mut p, " (--no-patches)");
    }
    say(&mut out, Level::Plain, p);
    if bumped {
        let mut t = owned("  staged gitlink, commit ");
        push_str(&mut t, sm.path.as_str());
        push_str(&mut t, " to record the pin");
        say(&mut out, Level::Plain, t);
    }
    assert(messages_view(out@) =~= summary_of(
        sm.path@,
        bumped,
        old_sha@,
        new_sha@,
        applied as nat,
        no_patches,
    ));
    out
}


/// The phases of one submodule's update, run in order; the first failure
/// ends the command.
#[derive(Clone, Copy, PartialEq, Eq, Debug)]
pub enum UpdatePhase {
    /// Fail unless the worktree has a `.git` (`picky init` comes first).
    CheckCheckout,
    /// Read the current `HEAD`.
    ReadHead,
    /// Warn when the working tree has changes (`checkout -f` discards them).
    CheckDirty,
    /// `--fresh`: delete the worktree and git dir (`git gc` can never
    /// reclaim a partial clone's old packs).
    Rebuild,
    /// Build the git dir and configure the partial clone and sparse checkout.
    Prepare,
    /// Fetch only the target ref, shallow and blobless, and check out
    /// `FETCH_HEAD` (a bare branch lands on the fresh remote tip).
    FetchTarget,
    /// `--unshallow`: fetch the full history and all tags, blobless, and
    /// prefer the fresh remote-tracking branch for a bare branch name.
    FetchHistory,
    /// Detach onto the target and reapply the sparse patterns.
    Checkout,
    /// Read the new `HEAD`.
    ReadNewHead,
    /// Apply the patch stack.
    Patches,
    /// Run the post-update hook, if declared and approved.
    Hook,
    /// Stage the moved gitlink.
    Stage,
    /// Report the result.
    Report,
}

pub open spec fn update_phases(bump: bool, fresh: bool, no_patches: bool, unshallow: bool) -> Seq<
    UpdatePhase,
> {
    seq![UpdatePhase::CheckCheckout, UpdatePhase::ReadHead, UpdatePhase::CheckDirty] + (if fresh {
        seq![UpdatePhase::Rebuild, UpdatePhase::Prepare]
    } else {
        Seq::empty()
    }) + (if bump || fresh {
        seq![fetch_phase(unshallow)]
    } else {
        Seq::empty()
    }) + seq![UpdatePhase::Checkout, UpdatePhase::ReadNewHead] + (if no_patches {
        Seq::empty()
    } else {
        seq![UpdatePhase::Patches]
    }) + seq![UpdatePhase::Hook] + (if bump {
        seq![UpdatePhase::Stage]
    } else {
        Seq::empty()
    }) + seq![UpdatePhase::Report]
}

/// How the target is fetched: the full history with `--unshallow`, else
/// only the target ref.
pub open spec fn fetch_phase(unshallow: bool) -> UpdatePhase {
    if unshallow {
        UpdatePhase::FetchHistory
    } else {
        UpdatePhase::FetchTarget
    }
}

/// The phases of one submodule's update: a bump (`bump`, a ref was given)
/// or a refresh at the current pin, optionally rebuilt from scratch
/// (`fresh`), without the patch stack (`no_patches`), and fetching the full
/// history (`unshallow`) instead of only the target ref.
pub fn phases(bump: bool, fresh: bool, no_patches: bool, unshallow: bool) -> (p: Vec<UpdatePhase>)
    ensures
        p@ == update_phases(bump, fresh, no_patches, unshallow),
{
    let mut p = vec![UpdatePhase::CheckCheckout, UpdatePhase::ReadHead, UpdatePhase::CheckDirty];
    if fresh {
        p.push(UpdatePhase::Rebuild);
        p.push(UpdatePhase::Prepare);
    }
    if bump || fresh {
        if unshallow {
            p.push(UpdatePhase::FetchHistory);
        } else {
            p.push(UpdatePhase::FetchTarget);
        }
    }
    p.push(UpdatePhase::Checkout);
    p.push(UpdatePhase::ReadNewHead);
    if !no_patches {
        p.push(UpdatePhase::Patches);
    }
    p.push(UpdatePhase::Hook);
    if bump {
        p.push(UpdatePhase::Stage);
    }
    p.push(UpdatePhase::Report);
    assert(p@ =~= update_phases(bump, fresh, no_patches, unshallow));
    p
}

/// A refresh at the current pin never stages the gitlink and fetches
/// nothing (unless rebuilt), `--no-patches` never applies the stack, only
/// `--unshallow` fetches the history (a default bump never unshallows), and
/// the hook runs after the patches, on the final tree, and before the pin is
/// staged.
pub proof fn lemma_update_phases(bump: bool, fresh: bool, no_patches: bool, unshallow: bool)
    ensures
        !bump ==> !update_phases(bump, fresh, no_patches, unshallow).contains(UpdatePhase::Stage),
        no_patches ==> !update_phases(bump, fresh, no_patches, unshallow).contains(UpdatePhase::Patches),
        !bump && !fresh ==> !update_phases(bump, fresh, no_patches, unshallow).contains(UpdatePhase::FetchTarget)
            && !update_phases(bump, fresh, no_patches, unshallow).contains(UpdatePhase::FetchHistory),
        !unshallow ==> !update_phases(bump, fresh, no_patches, unshallow).contains(UpdatePhase::FetchHistory),
        forall|i: int, j: int|
            0 <= i < update_phases(bump, fresh, no_patches, unshallow).len() && 0 <= j < update_phases(
                bump,
                fresh,
                no_patches,
                unshallow,
            ).len() && update_phases(bump, fresh, no_patches, unshallow)[i] == UpdatePhase::Patches
                && update_phases(bump, fresh, no_patches, unshallow)[j] == UpdatePhase::Hook ==> i < j,
        forall|i: int, j: int|
            0 <= i < update_phases(bump, fresh, no_patches, unshallow).len() && 0 <= j < update_phases(
                bump,
                fresh,
                no_patches,
                unshallow,
            ).len() && update_phases(bump, fresh, no_patches, unshallow)[i] == UpdatePhase::Hook
                && update_phases(bump, fresh, no_patches, unshallow)[j] == UpdatePhase::Stage ==> i < j,
{
    let p = update_phases(bump, fresh, no_patches, unshallow);
    let a = seq![UpdatePhase::CheckCheckout, UpdatePhase::ReadHead, UpdatePhase::CheckDirty];
    let b: Seq<UpdatePhase> = if fresh {
        seq![UpdatePhase::Rebuild, UpdatePhase::Prepare]
    } else {
        Seq::empty()
    };
    let c: Seq<UpdatePhase> = if bump || fresh {
        seq![fetch_phase(unshallow)]
    } else {
        Seq::empty()
    };
    let d = seq![UpdatePhase::Checkout, UpdatePhase::ReadNewHead];
    let e: Seq<UpdatePhase> = if no_patches {
        Seq::empty()
    } else {
        seq![UpdatePhase::Patches]
    };
    let f = seq![UpdatePhase::Hook];
    let g: Seq<UpdatePhase> = if bump {
        seq![UpdatePhase::Stage]
    } else {
        Seq::empty()
    };
    let h = seq![UpdatePhase::Report];
    assert(p == a + b + c + d + e + f + g + h);
    let pre = a + b + c + d + e;
    let hook_at = pre.len() as int;
    assert(p[hook_at] == UpdatePhase::Hook);
    assert forall|i: int| 0 <= i < p.len() && p[i] == UpdatePhase::Hook implies i == hook_at by {
        if i < hook_at {
            assert(pre[i] == p[i]);
        } else if i > hook_at {
        }
    }
    assert forall|i: int| 0 <= i < p.len() && p[i] == UpdatePhase::Patches implies i < hook_at by {
        if i >= hook_at {
        }
    }
    assert forall|i: int| 0 <= i < p.len() && p[i] == UpdatePhase::Stage implies i > hook_at by {
        if i <= hook_at {
            if i < hook_at {
                assert(pre[i] == p[i]);
            }
        }
    }
    if !bump {
        assert forall|i: int| 0 <= i < p.len() implies p[i] != UpdatePhase::Stage by {
        }
    }
    if no_patches {
        assert forall|i: int| 0 <= i < p.len() implies p[i] != UpdatePhase::Patches by {
        }
    }
    if !bump && !fresh {
        assert forall|i: int| 0 <= i < p.len() implies p[i] != UpdatePhase::FetchTarget && p[i]
            != UpdatePhase::FetchHistory by {
        }
    }
    if !unshallow {
        assert forall|i: int| 0 <= i < p.len() implies p[i] != UpdatePhase::FetchHistory by {
        }
    }
}
} // verus!
