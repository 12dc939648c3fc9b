//! `picky remove <path>…`: the inverse of `picky add`: undeclare a submodule
//! and delete its checkout (working tree, submodule git dir, gitlink, and
//! `.gitmodules` entry). Paths are always explicit, and nothing is deleted
//! without confirmation: `--yes`, or a `y` typed at a terminal.

use vstd::prelude::*;

use crate::config::{self, calls_view, find_of, first_unknown, remove_calls, ConfigCall, ConfigError, GitConfig, Submodule};
use crate::console::{mv, Level, Message, MessageView};
use crate::sparse::args_view;
use crate::text::{join, owned, push_str};

verus! {

/// Why `picky remove` refused.
#[derive(Debug)]
pub enum RemoveError {
    /// No path was given (there is no "remove all").
    NoPaths,
    /// A path names no submodule.
    Lookup(ConfigError),
    /// No `--yes`, and no terminal to ask.
    Unconfirmed,
    /// The user declined.
    Declined,
}

impl RemoveError {
    /// The message shown to the user, as text.
    pub open spec fn message_of(&self) -> Seq<char> {
        match self {
            RemoveError::NoPaths => "no submodule specified — pass one or more paths (there is no \"remove all\")"@,
            RemoveError::Lookup(e) => e.message_of(),
            RemoveError::Unconfirmed => "refusing to delete without confirmation: stdin is not a terminal, pass --yes to confirm"@,
            RemoveError::Declined => "not confirmed — nothing was removed"@,
        }
    }

    /// The message shown to the user.
    pub fn message(&self) -> (m: String)
        ensures
            m@ == self.message_of(),
    {
        match self {
            RemoveError::NoPaths => owned(
                "no submodule specified — pass one or more paths (there is no \"remove all\")",
            ),
            RemoveError::Lookup(e) => e.message(),
            RemoveError::Unconfirmed => owned(
                "refusing to delete without confirmation: stdin is not a terminal, pass --yes to confirm",
            ),
            RemoveError::Declined => owned("not confirmed — nothing was removed"),
        }
    }
}

/// What to do before deleting anything.
#[derive(Debug)]
pub enum Confirmation {
    /// `--yes` was given.
    Proceed,
    /// Ask at the terminal.
    Ask,
}

/// What `picky remove` acts on, and how it is confirmed.
#[derive(Debug)]
pub struct RemovePlan {
    pub targets: Vec<Submodule>,
    pub confirmation: Confirmation,
}

/// Check the arguments before anything is touched: paths are required, each
/// must name a submodule, and without `--yes` a terminal must be there to
/// confirm.
pub fn run(cfg: &GitConfig, paths: &Vec<String>, yes: bool, interactive: bool) -> (r: Result<RemovePlan, RemoveError>)
    ensures
        paths.len() == 0 ==> (r matches Err(RemoveError::NoPaths)),
        paths.len() > 0 ==> match first_unknown(cfg@, paths.deep_view()) {
            Some(k) => r matches Err(RemoveError::Lookup(ConfigError::NoMatch(n))) && n@ == paths[k as int]@,
            None => if yes {
                r matches Ok(p) && p.confirmation is Proceed && p.targets.len() == paths.len()
                    && forall|i: int| 0 <= i < p.targets.len() ==> Some(#[trigger] p.targets[i]@) == find_of(cfg@, paths[i]@)
            } else if interactive {
                r matches Ok(p) && p.confirmation is Ask && p.targets.len() == paths.len()
                    && forall|i: int| 0 <= i < p.targets.len() ==> Some(#[trigger] p.targets[i]@) == find_of(cfg@, paths[i]@)
            } else {
                r matches Err(RemoveError::Unconfirmed)
            },
        },
{
    if paths.len() == 0 {
        return Err(RemoveError::NoPaths);
    }
    let targets = match config::select(cfg, paths) {
        Ok(t) => t,
        Err(e) => {
            return Err(RemoveError::Lookup(e));
        },
    };
    if yes {
        Ok(RemovePlan { targets, confirmation: Confirmation::Proceed })
    } else if interactive {
        Ok(RemovePlan { targets, confirmation: Confirmation::Ask })
    } else {
        Err(RemoveError::Unconfirmed)
    }
}

/// The confirmation question.
pub fn prompt(paths: &Vec<String>) -> (q: String)
    ensures
        q@ == "remove "@ + join(paths.deep_view(), ", "@)
            + " and delete the checkout(s) and their git dirs? [y/N] "@,
{
    let mut q = owned("remove ");
    let j = crate::text::join_strings(paths, ", ");
    push_str(&mut q, j.as_str());
    push_str(&mut q, " and delete the checkout(s) and their git dirs? [y/N] ");
    q
}

/// Whether the answer to the confirmation question confirms: `y` or `yes`,
/// any case, surrounding blanks ignored.
pub fn confirmed(answer: &str) -> (r: bool)
    ensures
        r == crate::hook::approves(answer@),
{
    crate::hook::approved(answer)
}

/// `removing submodule <path>`.
pub fn heading(sm: &Submodule) -> (m: Message)
    ensures
        m@ == mv(Level::Heading, "removing submodule "@ + sm.path@),
{
    let mut t = owned("removing submodule ");
    push_str(&mut t, sm.path.as_str());
    Message::new(Level::Heading, t)
}

/// The warning when the working tree has uncommitted changes (`git status
/// --porcelain` printed something).
pub fn dirty_warning(sm: &Submodule, porcelain: &str) -> (r: Option<Message>)
    ensures
        porcelain@.len() == 0 ==> r is None,
        porcelain@.len() > 0 ==> (r matches Some(m) && m@ == mv(
            Level::Warn,
            sm.path@ + " has uncommitted changes that will be discarded"@,
        )),
{
    let v = crate::text::chars_of(porcelain);
    if v.len() == 0 {
        None
    } else {
        let mut t = sm.path.clone();
        push_str(&mut t, " has uncommitted changes that will be discarded");
        Some(Message::new(Level::Warn, t))
    }
}

/// What the removal of one submodule runs.
#[derive(Debug)]
pub struct Removal {
    /// `git submodule deinit -f <path>`, best effort (undoes `git submodule
    /// init`'s local registration).
    pub deinit: Vec<String>,
    /// `git rm --cached -f -q -- <path>`, best effort (drops the gitlink if
    /// one was ever staged).
    pub unstage: Vec<String>,
    /// The `.gitmodules` calls that strip its sections.
    pub undeclare: Vec<ConfigCall>,
    /// `git add .gitmodules`.
    pub stage: Vec<String>,
}

pub fn removal(sm: &Submodule) -> (r: Removal)
    ensures
        r.deinit.deep_view() == seq!["submodule"@, "deinit"@, "-f"@, sm.path@],
        r.unstage.deep_view() == seq!["rm"@, "--cached"@, "-f"@, "-q"@, "--"@, sm.path@],
        calls_view(r.undeclare@) == remove_calls(sm.name@),
        r.stage.deep_view() == seq!["add"@, ".gitmodules"@],
{
    let unstage = vec![owned("rm"), owned("--cached"), owned("-f"), owned("-q"), owned("--"), sm.path.clone()];
    assert(unstage.deep_view() =~= seq!["rm"@, "--cached"@, "-f"@, "-q"@, "--"@, sm.path@]);
    Removal {
        deinit: crate::sparse::argv4("submodule", "deinit", "-f", sm.path.as_str()),
        unstage,
        undeclare: config::remove(&sm.name),
        stage: crate::sparse::argv2("add", ".gitmodules"),
    }
}

/// `<path> removed`.
pub fn removed(sm: &Submodule) -> (m: Message)
    ensures
        m@ == mv(Level::Success, sm.path@ + " removed"@),
{
    let mut t = sm.path.clone();
    push_str(&mut t, " removed");
    Message::new(Level::Success, t)
}

} // verus!
