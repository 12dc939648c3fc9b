//! `picky add <url> <path> …`: build the sparse checkout first, entirely
//! from the new declaration in memory; only once that succeeded write and
//! stage the `.gitmodules` entry and the new gitlink, so a failed add (bad
//! URL, bad `--ref`, network) leaves no half-declared submodule behind.

use vstd::prelude::*;

use crate::config::{opt_view, Submodule, SubmoduleView};
use crate::console::{messages_view, mv, say, Level, Message, MessageView};
use crate::sparse::{args_view, argv2, push_call};
use crate::text;
use crate::text::{owned, prefix_upto, push_str};

verus! {

/// The phases of `picky add`, run in order; the first failure ends the
/// command.
#[derive(Clone, Copy, PartialEq, Eq, Debug)]
pub enum AddPhase {
    /// Build the git dir and configure the partial clone and sparse checkout.
    Prepare,
    /// Fetch the requested ref (or the remote `HEAD`), shallow and blobless.
    Fetch,
    /// Detach onto `FETCH_HEAD`.
    Checkout,
    /// Run the post-update hook, if declared and approved.
    Hook,
    /// Write the `.gitmodules` entry.
    Declare,
    /// Stage `.gitmodules` and the gitlink.
    Stage,
    /// Report the result.
    Report,
}

pub open spec fn add_phases() -> Seq<AddPhase> {
    seq![
        AddPhase::Prepare,
        AddPhase::Fetch,
        AddPhase::Checkout,
        AddPhase::Hook,
        AddPhase::Declare,
        AddPhase::Stage,
        AddPhase::Report,
    ]
}

/// The phases of `picky add`, in order.
pub fn phases() -> (p: Vec<AddPhase>)
    ensures
        p@ == add_phases(),
{
    let p = vec![
        AddPhase::Prepare,
        AddPhase::Fetch,
        AddPhase::Checkout,
        AddPhase::Hook,
        AddPhase::Declare,
        AddPhase::Stage,
        AddPhase::Report,
    ];
    assert(p@ =~= add_phases());
    p
}

/// `.gitmodules` is written only after the checkout was built: every phase
/// that builds it comes before the declaration, and nothing but staging and
/// the report after it.
pub proof fn lemma_declare_after_checkout()
    ensures
        forall|i: int, j: int|
            0 <= i < add_phases().len() && 0 <= j < add_phases().len() && add_phases()[j]
                == AddPhase::Declare && (add_phases()[i] == AddPhase::Prepare || add_phases()[i]
                == AddPhase::Fetch || add_phases()[i] == AddPhase::Checkout || add_phases()[i]
                == AddPhase::Hook) ==> i < j,
{
}

/// The declaration of a new submodule: named after its path unless a name
/// is given, and shallow by default.
pub open spec fn declared(
    url: Seq<char>,
    path: Seq<char>,
    name: Option<Seq<char>>,
    sparse: Seq<Seq<char>>,
    depth: Option<u32>,
    filter: Option<Seq<char>>,
    branch: Option<Seq<char>>,
    patches: Option<Seq<char>>,
    post_update: Option<Seq<char>>,
) -> SubmoduleView {
    SubmoduleView {
        name: match name {
            Some(n) => n,
            None => path,
        },
        path,
        url,
        branch,
        shallow: true,
        sparse,
        depth,
        filter,
        patches,
        post_update,
    }
}

/// What `picky add` builds and fetches.
#[derive(Debug)]
pub struct AddPlan {
    pub sm: Submodule,
    /// The ref to fetch: `--ref`, else `--branch`, else the remote `HEAD`.
    pub target: String,
    /// What to check out once fetched: `FETCH_HEAD`, since there is no
    /// gitlink yet to read a pin from.
    pub checkout: String,
    pub heading: Message,
}

/// Decide what `picky add` declares and fetches.
pub fn run(
    url: String,
    path: String,
    name: Option<String>,
    sparse: Vec<String>,
    depth: Option<u32>,
    filter: Option<String>,
    branch: Option<String>,
    reference: Option<String>,
    patches: Option<String>,
    post_update: Option<String>,
) -> (p: AddPlan)
    ensures
        p.sm@ == declared(
            url@,
            path@,
            opt_view(name),
            sparse.deep_view(),
            depth,
            opt_view(filter),
            opt_view(branch),
            opt_view(patches),
            opt_view(post_update),
        ),
        p.target@ == match (opt_view(reference), opt_view(branch)) {
            (Some(r), _) => r,
            (None, Some(b)) => b,
            (None, None) => "HEAD"@,
        },
        p.checkout@ == "FETCH_HEAD"@,
        p.heading@ == mv(Level::Heading, "adding submodule "@ + path@),
{
    let target = match (&reference, &branch) {
        (Some(r), _) => r.clone(),
        (None, Some(b)) => b.clone(),
        (None, None) => owned("HEAD"),
    };
    let mut h = owned("adding submodule ");
    push_str(&mut h, path.as_str());
    let sm = Submodule {
        name: match name {
            Some(n) => n,
            None => path.clone(),
        },
        path,
        url,
        branch,
        shallow: true,
        sparse,
        depth,
        filter,
        patches,
        post_update,
    };
    AddPlan { sm, target, checkout: owned("FETCH_HEAD"), heading: Message::new(Level::Heading, h) }
}

/// Staging the declaration and the gitlink; git's "embedded git
/// repository" hint is suppressed, since a gitlink is exactly what is
/// wanted.
pub fn stage_calls(sm: &Submodule) -> (calls: Vec<Vec<String>>)
    ensures
        args_view(calls@) == seq![
            seq!["add"@, ".gitmodules"@],
            seq!["-c"@, "advice.addEmbeddedRepo=false"@, "add"@, sm.path@],
        ],
{
    let mut calls: Vec<Vec<String>> = Vec::new();
    push_call(&mut calls, argv2("add", ".gitmodules"));
    push_call(&mut calls, crate::sparse::argv4("-c", "advice.addEmbeddedRepo=false", "add", sm.path.as_str()));
    assert(args_view(calls@) =~= seq![
        seq!["add"@, ".gitmodules"@],
        seq!["-c"@, "advice.addEmbeddedRepo=false"@, "add"@, sm.path@],
    ]);
    calls
}

/// The closing report: where the new submodule landed and its size.
pub fn added(sm: &Submodule, head: &str, size: &Option<String>) -> (out: Vec<Message>)
    ensures
        messages_view(out@) == seq![
            mv(Level::Success, sm.path@ + " added at "@ + prefix_upto(head@, 8) + match opt_view(*size) {
                Some(s) => " ("@ + s + ")"@,
                None => Seq::<char>::empty(),
            }),
            mv(Level::Plain, "  staged .gitmodules + gitlink, commit them to record the submodule"@),
        ],
{
    let mut out: Vec<Message> = Vec::new();
    let mut t = sm.path.clone();
    push_str(&mut t, " added at ");
    let v = text::chars_of(head);
    let short = if v.len() <= 8 {
        text::string_from(&v)
    } else {
        text::string_of(&v, 0, 8)
    };
    push_str(&mut t, short.as_str());
    match size {
        Some(s) => {
            push_str(&mut t, " (");
            push_str(&mut t, s.as_str());
            push_str(&mut t, ")");
        },
        None => {},
    }
    assert(t@ =~= sm.path@ + " added at "@ + prefix_upto(head@, 8) + match opt_view(*size) {
        Some(s) => " ("@ + s + ")"@,
        None => Seq::<char>::empty(),
    });
    say(&mut out, Level::Success, t);
    say(&mut out, Level::Plain, owned("  staged .gitmodules + gitlink, commit them to record the submodule"));
    assert(messages_view(out@) =~= seq![
        mv(Level::Success, sm.path@ + " added at "@ + prefix_upto(head@, 8) + match opt_view(*size) {
            Some(s) => " ("@ + s + ")"@,
            None => Seq::<char>::empty(),
        }),
        mv(Level::Plain, "  staged .gitmodules + gitlink, commit them to record the submodule"@),
    ]);
    out
}

/// Each option of `picky add` ends up in its own key: after the
/// declaration is written to `.gitmodules` (whatever it held before) and
/// read back, the submodule has the given URL, path, branch, patterns,
/// depth, filter, patch directory and hook, is shallow, and is named after
/// the `--name` given, else its path.
pub proof fn lemma_add_records_arguments(
    vals: spec_fn(Seq<char>) -> Seq<Seq<char>>,
    url: Seq<char>,
    path: Seq<char>,
    name: Option<Seq<char>>,
    sparse: Seq<Seq<char>>,
    depth: Option<u32>,
    filter: Option<Seq<char>>,
    branch: Option<Seq<char>>,
    patches: Option<Seq<char>>,
    post_update: Option<Seq<char>>,
)
    ensures
        ({
            let sm = declared(url, path, name, sparse, depth, filter, branch, patches, post_update);
            let back = crate::config::load_from(
                crate::config::apply_all(vals, crate::config::write_calls(sm)),
                sm.name,
            );
            &&& sm.name == (match name {
                Some(n) => n,
                None => path,
            })
            &&& back.url == url
            &&& back.path == path
            &&& back.branch == branch
            &&& back.shallow
            &&& back.sparse == sparse
            &&& back.depth == depth
            &&& back.filter == filter
            &&& back.patches == patches
            &&& back.post_update == post_update
        }),
{
    let sm = declared(url, path, name, sparse, depth, filter, branch, patches, post_update);
    crate::config::lemma_write_then_load(vals, sm);
}

} // verus!
