//! `picky init [<path>…]`: reconstruct sparse checkouts from the committed
//! configuration; with no paths, every declared submodule. Idempotent: a
//! fresh clone, a half-finished run or an existing full checkout all
//! converge to the same state.

use vstd::prelude::*;

use crate::config::{self, first_unknown, find_of, load_from, lookup_of, names_of, opt_view, ConfigError, GitConfig, Submodule};
use crate::console::{mv, Level, Message, MessageView};
use crate::sparse::{commit_fetch_of, fetch_args_of, gitdir_action_of, gitdir_step_of, prepare_calls, GitDirAction};
use crate::text::{owned, push_str};

verus! {

/// The phases of `picky init` for one submodule, run in order; the first
/// failure ends the command.
#[derive(Clone, Copy, PartialEq, Eq, Debug)]
pub enum InitPhase {
    /// `git submodule init <path>`, best effort (the submodule may not be
    /// committed yet; picky configures the remote itself).
    Register,
    /// Read the pinned SHA from the superproject index.
    Pin,
    /// Build the git dir and configure the partial clone and sparse checkout.
    Prepare,
    /// Fetch the pinned commit, shallow and blobless, unless present.
    EnsureCommit,
    /// Detach onto the pin and reapply the sparse patterns.
    Checkout,
    /// Run the post-update hook, if declared and approved.
    Hook,
    /// Report the result.
    Report,
}

pub open spec fn init_phases() -> Seq<InitPhase> {
    seq![
        InitPhase::Register,
        InitPhase::Pin,
        InitPhase::Prepare,
        InitPhase::EnsureCommit,
        InitPhase::Checkout,
        InitPhase::Hook,
        InitPhase::Report,
    ]
}

/// The phases of `picky init` for one submodule, in order. `init` checks out
/// pristine upstream: it never applies the patch stack and never moves the
/// pin.
pub fn phases() -> (p: Vec<InitPhase>)
    ensures
        p@ == init_phases(),
{
    let p = vec![
        InitPhase::Register,
        InitPhase::Pin,
        InitPhase::Prepare,
        InitPhase::EnsureCommit,
        InitPhase::Checkout,
        InitPhase::Hook,
        InitPhase::Report,
    ];
    assert(p@ =~= init_phases());
    p
}

/// The submodules to initialize, and the warning when there are none.
#[derive(Debug)]
pub struct InitPlan {
    pub targets: Vec<Submodule>,
    pub warning: Option<Message>,
}

/// Choose the submodules: every declared one with no paths, else the one
/// each path names (the first unknown path is the error).
pub fn run(cfg: &GitConfig, paths: &Vec<String>) -> (r: Result<InitPlan, ConfigError>)
    ensures
        paths.len() == 0 ==> (r matches Ok(p) && p.targets.len() == names_of(cfg@).len() && forall|i: int|
            0 <= i < p.targets.len() ==> #[trigger] p.targets[i]@ == load_from(lookup_of(cfg@), names_of(cfg@)[i])),
        paths.len() > 0 ==> match first_unknown(cfg@, paths.deep_view()) {
            None => r matches Ok(p) && p.targets.len() == paths.len() && forall|i: int|
                0 <= i < p.targets.len() ==> Some(#[trigger] p.targets[i]@) == find_of(cfg@, paths[i]@),
            Some(k) => r matches Err(ConfigError::NoMatch(n)) && n@ == paths[k as int]@,
        },
        r matches Ok(p) ==> (p.targets.len() == 0 <==> p.warning is Some),
        r matches Ok(p) ==> (p.warning matches Some(m) ==> m@ == mv(Level::Warn, "no submodules declared in .gitmodules"@)),
{
    match config::select(cfg, paths) {
        Ok(targets) => {
            let warning = if targets.len() == 0 {
                Some(Message::new(Level::Warn, owned("no submodules declared in .gitmodules")))
            } else {
                None
            };
            Ok(InitPlan { targets, warning })
        },
        Err(e) => Err(e),
    }
}

/// `submodule <path>`, the heading of one submodule's run.
pub fn heading(sm: &Submodule) -> (m: Message)
    ensures
        m@ == mv(Level::Heading, "submodule "@ + sm.path@),
{
    let mut t = owned("submodule ");
    push_str(&mut t, sm.path.as_str());
    Message::new(Level::Heading, t)
}

/// `git submodule init <path>`.
pub fn register_args(sm: &Submodule) -> (args: Vec<String>)
    ensures
        args.deep_view() == seq!["submodule"@, "init"@, sm.path@],
{
    crate::sparse::argv3("submodule", "init", sm.path.as_str())
}

/// `pinned at <sha>`, shown when verbose.
pub fn pinned_detail(sha: &str) -> (m: Message)
    ensures
        m@ == mv(Level::Detail, "pinned at "@ + sha@),
{
    let mut t = owned("pinned at ");
    push_str(&mut t, sha);
    Message::new(Level::Detail, t)
}

/// `git dir <path>`, shown when verbose.
pub fn gitdir_detail(gitdir: &str) -> (m: Message)
    ensures
        m@ == mv(Level::Detail, "git dir "@ + gitdir@),
{
    let mut t = owned("git dir ");
    push_str(&mut t, gitdir);
    Message::new(Level::Detail, t)
}

/// `<path> ready`, with the working-tree size when it could be measured.
pub fn ready(sm: &Submodule, size: &Option<String>) -> (m: Message)
    ensures
        m@ == mv(Level::Success, sm.path@ + " ready"@ + match opt_view(*size) {
            Some(s) => " ("@ + s + ")"@,
            None => Seq::<char>::empty(),
        }),
{
    let mut t = sm.path.clone();
    push_str(&mut t, " ready");
    match size {
        Some(s) => {
            push_str(&mut t, " (");
            push_str(&mut t, s.as_str());
            push_str(&mut t, ")");
        },
        None => {},
    }
    assert(t@ =~= sm.path@ + " ready"@ + match opt_view(*size) {
        Some(s) => " ("@ + s + ")"@,
        None => Seq::<char>::empty(),
    });
    Message::new(Level::Success, t)
}

/// Running `init` again converges. Over a checkout it built (the worktree's
/// `.git` resolves and the pinned commit is present) it keeps the git dir
/// with no step shown, re-sets the same remote and configuration, and
/// fetches nothing. Over a dangling gitlink (its git dir deleted) it
/// rebuilds the git dir, plans the configuration of a first run, and
/// fetches the pin again, shallow and blobless. Either way the same pin is
/// checked out afterwards.
pub proof fn lemma_init_rerun(sm: config::SubmoduleView, sha: Seq<char>, is_dir: bool)
    ensures
        gitdir_action_of(true, true, is_dir) == GitDirAction::Keep,
        gitdir_step_of(true, true) is None,
        commit_fetch_of(sm, sha, true) is None,
        gitdir_action_of(true, false, is_dir) == (GitDirAction::Rebuild { is_dir }),
        gitdir_step_of(true, false) == Some(mv(Level::Step, "Rebuilding git dir (stale gitlink)"@)),
        gitdir_action_of(true, false, is_dir) != gitdir_action_of(false, false, is_dir),
        commit_fetch_of(sm, sha, false) == Some(
            (mv(Level::Step, "Fetching "@ + sha + " (shallow, blobless)"@), fetch_args_of(sm, sha)),
        ),
        prepare_calls(sm, true).len() == prepare_calls(sm, false).len(),
        forall|i: int|
            1 <= i < prepare_calls(sm, true).len() ==> #[trigger] prepare_calls(sm, true)[i]
                == prepare_calls(sm, false)[i],
        init_phases().len() == 7,
        init_phases()[2] == InitPhase::Prepare && init_phases()[3] == InitPhase::EnsureCommit
            && init_phases()[4] == InitPhase::Checkout,
{
    crate::sparse::lemma_prepare_rerun(sm, is_dir);
}

} // verus!
