//! picky: sparse, shallow, blobless checkouts of git submodules.
//!
//! The library decides; the `git` CLI acts. Each module turns what git and
//! `.gitmodules` report into the calls to make and the messages to show, and
//! states in its contracts exactly which ones. The functions below are the
//! entry points for embedding.

pub mod commands;
pub mod completion;
pub mod config;
pub mod console;
pub mod git;
pub mod hook;
pub mod order;
pub mod patch;
pub mod refcache;
pub mod sparse;
pub mod text;

use vstd::prelude::*;

use crate::commands::init::InitPlan;
use crate::commands::sparse::{outcome, Action, ActionView, SparseError, SparsePlan};
use crate::commands::update::{target_views, targets_of, UpdateError, UpdatePlan};
use crate::config::{
    find_of, first_unknown, load_from, lookup_of, names_of, opt_view, ConfigError, GitConfig,
    Submodule,
};
use crate::console::Console;
use crate::git::{GitError, Outcome};

verus! {

/// A console that suppresses progress output (steps, items, successes):
/// the usual choice for an embedder that doesn't want CLI chatter.
pub fn quiet() -> (c: Console)
    ensures
        c.quiet,
        !c.verbose,
        c.sink == console::SinkKind::Terminal,
{
    Console::new(true, false)
}

/// The superproject root, from what `git rev-parse --show-toplevel` left.
pub fn repo_root(out: &Outcome) -> (r: Result<String, GitError>)
    ensures
        out.success ==> (r matches Ok(s) && s@ == text::trim_end(out.stdout@)),
        !out.success ==> (r matches Err(e) && e.message@ == "not inside a git repository: "@
            + git::quoted(seq!["rev-parse"@, "--show-toplevel"@]) + " failed:\n"@ + text::trim_end(
            out.stderr@,
        )),
{
    git::repo_root(out)
}

/// Every submodule declared in `.gitmodules`, in declaration order.
pub fn submodules(cfg: &GitConfig) -> (r: Vec<Submodule>)
    ensures
        r.len() == names_of(cfg@).len(),
        forall|i: int|
            0 <= i < r.len() ==> #[trigger] r[i]@ == load_from(lookup_of(cfg@), names_of(cfg@)[i]),
{
    config::load_all(cfg)
}

/// The submodules to reconstruct from committed config; no paths: all.
pub fn init(cfg: &GitConfig, paths: &Vec<String>) -> (r: Result<InitPlan, ConfigError>)
    ensures
        paths.len() == 0 ==> (r matches Ok(p) && p.targets.len() == names_of(cfg@).len() && forall|i: int|
            0 <= i < p.targets.len() ==> #[trigger] p.targets[i]@ == load_from(lookup_of(cfg@), names_of(cfg@)[i])),
        paths.len() > 0 ==> match first_unknown(cfg@, paths.deep_view()) {
            None => r matches Ok(p) && p.targets.len() == paths.len() && forall|i: int|
                0 <= i < p.targets.len() ==> Some(#[trigger] p.targets[i]@) == find_of(cfg@, paths[i]@),
            Some(k) => r matches Err(ConfigError::NoMatch(n)) && n@ == paths[k as int]@,
        },
{
    commands::init::run(cfg, paths)
}

/// The submodule to bump (or refresh) and the ref to bump it to; see
/// [`commands::update::run`] for how the two positionals are read.
pub fn update(cfg: &GitConfig, target: Option<String>, reference: Option<String>) -> (r: Result<
    UpdatePlan,
    UpdateError,
>)
    ensures
        match targets_of(cfg@, opt_view(target), opt_view(reference), false) {
            Ok(ts) => r matches Ok(p) && target_views(p.targets@) == ts && p.warning is None,
            Err(x) => r matches Err(e) && e.refusal_of() == x,
        },
{
    commands::update::run(cfg, target, reference, false)
}

/// Replace a submodule's sparse pattern list. `path` may be `None` when
/// exactly one submodule is declared.
pub fn set_sparse(cfg: &GitConfig, path: Option<String>, patterns: Vec<String>) -> (r: Result<
    SparsePlan,
    SparseError,
>)
    ensures
        match path {
            None => if names_of(cfg@).len() == 0 {
                r matches Err(SparseError::Lookup(ConfigError::NoneDeclared))
            } else if names_of(cfg@).len() > 1 {
                r matches Err(SparseError::Lookup(ConfigError::Multiple))
            } else {
                outcome(
                    r,
                    load_from(lookup_of(cfg@), names_of(cfg@)[0]),
                    ActionView::SetPatterns(patterns.deep_view()),
                    false,
                )
            },
            Some(p) => match find_of(cfg@, p@) {
                None => r matches Err(SparseError::Lookup(ConfigError::NoMatch(n))) && n@ == p@,
                Some(sm) => outcome(r, sm, ActionView::SetPatterns(patterns.deep_view()), false),
            },
        },
{
    commands::sparse::run(cfg, path, Action::SetPatterns(patterns), false)
}

} // verus!
