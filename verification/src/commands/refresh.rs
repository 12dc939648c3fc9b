//! `picky refresh [<path>…]`: refresh the cached ref list (used by `<ref>`
//! completion and `status`'s upstream column) from each submodule's remote.

use vstd::prelude::*;

use crate::config::Submodule;
use crate::console::{mv, Level, Message, MessageView};
use crate::text;
use crate::text::{dec, owned, push_str};

verus! {

/// `git ls-remote --heads --tags --refs <url>`.
pub fn ls_remote_args(url: &str) -> (args: Vec<String>)
    ensures
        args.deep_view() == seq!["ls-remote"@, "--heads"@, "--tags"@, "--refs"@, url@],
{
    crate::sparse::argv5("ls-remote", "--heads", "--tags", "--refs", url)
}

/// `Fetching refs for <path> from <url>`.
pub fn step(sm: &Submodule) -> (m: Message)
    ensures
        m@ == mv(Level::Step, "Fetching refs for "@ + sm.path@ + " from "@ + sm.url@),
{
    let mut t = owned("Fetching refs for ");
    push_str(&mut t, sm.path.as_str());
    push_str(&mut t, " from ");
    push_str(&mut t, sm.url.as_str());
    Message::new(Level::Step, t)
}

/// The outcome: how many refs were cached, or that the remote was out of
/// reach (`count` is `None`).
pub fn outcome(sm: &Submodule, count: Option<usize>) -> (m: Message)
    ensures
        count matches Some(n) ==> m@ == mv(
            Level::Success,
            sm.path@ + ": cached "@ + dec(n as nat) + " ref(s)"@,
        ),
        count is None ==> m@ == mv(Level::Warn, sm.path@ + ": could not reach "@ + sm.url@),
{
    match count {
        Some(n) => {
            let mut t = sm.path.clone();
            push_str(&mut t, ": cached ");
            let ns = text::usize_to_string(n);
            push_str(&mut t, ns.as_str());
            push_str(&mut t, " ref(s)");
            Message::new(Level::Success, t)
        },
        None => {
            let mut t = sm.path.clone();
            push_str(&mut t, ": could not reach ");
            push_str(&mut t, sm.url.as_str());
            Message::new(Level::Warn, t)
        },
    }
}

} // verus!
