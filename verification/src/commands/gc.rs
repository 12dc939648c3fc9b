//! `picky gc [<path>…]`: prune each submodule's object store (`git gc
//! --prune=now`), a deterministic reclaim for repositories updated often
//! enough that shallow-graft churn piles up between runs.

use vstd::prelude::*;

use crate::config::Submodule;
use crate::console::{mv, Level, Message, MessageView};
use crate::text::{owned, push_str};

verus! {

/// The step, the call and the result line of pruning one submodule.
#[derive(Debug)]
pub struct Pruning {
    pub step: Message,
    pub args: Vec<String>,
    pub done: Message,
}

pub fn pruning(sm: &Submodule) -> (p: Pruning)
    ensures
        p.step@ == mv(Level::Step, "Pruning "@ + sm.path@),
        p.args.deep_view() == seq!["gc"@, "--prune=now"@],
        p.done@ == mv(Level::Success, sm.path@ + ": gc'd"@),
{
    let mut s = owned("Pruning ");
    push_str(&mut s, sm.path.as_str());
    let mut d = sm.path.clone();
    push_str(&mut d, ": gc'd");
    Pruning {
        step: Message::new(Level::Step, s),
        args: crate::sparse::argv2("gc", "--prune=now"),
        done: Message::new(Level::Success, d),
    }
}

} // verus!
