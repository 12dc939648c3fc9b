//! The submodule checkout recipe: where its git dir lives, the
//! partial-clone, promisor and non-cone sparse-checkout configuration applied
//! before the first checkout, and the shallow, blobless fetch and detached
//! checkout. Each step is given as the `git` argument lists (and files) it
//! needs; the caller runs them in order and stops at the first failure.

use vstd::prelude::*;

use crate::config::{effective_depth_of, effective_filter_of, Submodule, SubmoduleView};
use crate::console::{mv, Level, Message, MessageView};
use crate::text;
use crate::text::{dec, join, owned, push_str, words};

verus! {

pub open spec fn args_view(v: Seq<Vec<String>>) -> Seq<Seq<Seq<char>>> {
    Seq::new(v.len(), |i: int| v[i].deep_view())
}

/// Appends one argument list to a list of git calls.
pub fn push_call(calls: &mut Vec<Vec<String>>, args: Vec<String>)
    ensures
        args_view(final(calls)@) == args_view(old(calls)@).push(args.deep_view()),
{
    let ghost a = args.deep_view();
    calls.push(args);
    assert(args_view(calls@) =~= args_view(old(calls)@).push(a));
}

fn cat(a: &str, b: &str) -> (s: String)
    ensures
        s@ == a@ + b@,
{
    let mut s = owned(a);
    push_str(&mut s, b);
    s
}

fn cat3(a: &str, b: &str, c: &str) -> (s: String)
    ensures
        s@ == a@ + b@ + c@,
{
    let mut s = owned(a);
    push_str(&mut s, b);
    push_str(&mut s, c);
    s
}

/// A two-argument list.
pub fn argv2(a: &str, b: &str) -> (v: Vec<String>)
    ensures
        v.deep_view() == seq![a@, b@],
{
    let v = vec![owned(a), owned(b)];
    assert(v.deep_view() =~= seq![a@, b@]);
    v
}

/// A three-argument list.
pub fn argv3(a: &str, b: &str, c: &str) -> (v: Vec<String>)
    ensures
        v.deep_view() == seq![a@, b@, c@],
{
    let v = vec![owned(a), owned(b), owned(c)];
    assert(v.deep_view() =~= seq![a@, b@, c@]);
    v
}

/// A four-argument list.
pub fn argv4(a: &str, b: &str, c: &str, d: &str) -> (v: Vec<String>)
    ensures
        v.deep_view() == seq![a@, b@, c@, d@],
{
    let v = vec![owned(a), owned(b), owned(c), owned(d)];
    assert(v.deep_view() =~= seq![a@, b@, c@, d@]);
    v
}

/// A five-argument list.
pub fn argv5(a: &str, b: &str, c: &str, d: &str, e: &str) -> (v: Vec<String>)
    ensures
        v.deep_view() == seq![a@, b@, c@, d@, e@],
{
    let v = vec![owned(a), owned(b), owned(c), owned(d), owned(e)];
    assert(v.deep_view() =~= seq![a@, b@, c@, d@, e@]);
    v
}

// ---------------------------------------------------------------------------
// The pin and the git dir
// ---------------------------------------------------------------------------

/// The gitlink revision the superproject pins `path` to, read from `git
/// ls-files -s <path>` output (`<mode> <sha> <stage>\t<path>`).
pub fn pinned_sha(path: &str, ls_files: &str) -> (r: Result<String, String>)
    ensures
        words(ls_files@).len() >= 2 ==> (r matches Ok(s) && s@ == words(ls_files@)[1]),
        words(ls_files@).len() < 2 ==> (r matches Err(e) && e@ == "no gitlink for '"@ + path@
            + "' in the index"@),
{
    let w = text::split_words(ls_files);
    if w.len() >= 2 {
        Ok(w[1].clone())
    } else {
        Err(cat3("no gitlink for '", path, "' in the index"))
    }
}

/// `git rev-parse --git-path modules/<path>`: where `git submodule` expects
/// the submodule's repository, relative to the superproject root.
pub fn gitdir(sm: &Submodule) -> (args: Vec<String>)
    ensures
        args.deep_view() == seq!["rev-parse"@, "--git-path"@, "modules/"@ + sm.path@],
{
    let args = vec![owned("rev-parse"), owned("--git-path"), cat("modules/", sm.path.as_str())];
    assert(args.deep_view() =~= seq!["rev-parse"@, "--git-path"@, "modules/"@ + sm.path@]);
    args
}

/// What to do with the worktree's `.git` before configuring.
#[derive(Debug)]
pub enum GitDirAction {
    /// It links to a usable repository.
    Keep,
    /// There is none: create the git dir.
    Create,
    /// It is dangling (its git dir is gone): remove it (a directory when
    /// `is_dir`) and create the git dir afresh.
    Rebuild { is_dir: bool },
}

/// The decision on the worktree's `.git`: keep one that resolves, create a
/// missing one, rebuild a dangling one.
pub open spec fn gitdir_action_of(exists: bool, resolves: bool, is_dir: bool) -> GitDirAction {
    if exists && resolves {
        GitDirAction::Keep
    } else if exists {
        GitDirAction::Rebuild { is_dir }
    } else {
        GitDirAction::Create
    }
}

/// The step shown for that decision, if any.
pub open spec fn gitdir_step_of(exists: bool, resolves: bool) -> Option<MessageView> {
    if exists && resolves {
        None
    } else if exists {
        Some(mv(Level::Step, "Rebuilding git dir (stale gitlink)"@))
    } else {
        Some(mv(Level::Step, "Creating git dir"@))
    }
}

pub open spec fn opt_message_view(m: Option<Message>) -> Option<MessageView> {
    match m {
        Some(x) => Some(x@),
        None => None,
    }
}

/// Decide from the worktree's `.git`: whether it exists, whether `git
/// rev-parse --resolve-git-dir` accepts it, and whether it is a directory.
/// A plain existence check would be fooled by a dangling gitlink.
pub fn gitdir_action(exists: bool, resolves: bool, is_dir: bool) -> (r: (GitDirAction, Option<Message>))
    ensures
        exists && resolves ==> r.0 is Keep && r.1 is None,
        !exists ==> r.0 is Create,
        !exists ==> (r.1 matches Some(m) && m@ == mv(Level::Step, "Creating git dir"@)),
        exists && !resolves ==> (r.0 matches GitDirAction::Rebuild { is_dir: d } && d == is_dir),
        exists && !resolves ==> (r.1 matches Some(m) && m@ == mv(
            Level::Step,
            "Rebuilding git dir (stale gitlink)"@,
        )),
        r.0 == gitdir_action_of(exists, resolves, is_dir),
        opt_message_view(r.1) == gitdir_step_of(exists, resolves),
{
    if exists && resolves {
        (GitDirAction::Keep, None)
    } else if exists {
        (
            GitDirAction::Rebuild { is_dir },
            Some(Message::new(Level::Step, owned("Rebuilding git dir (stale gitlink)"))),
        )
    } else {
        (GitDirAction::Create, Some(Message::new(Level::Step, owned("Creating git dir"))))
    }
}

/// `git init -q --separate-git-dir <gitdir> <worktree>`.
pub fn init_args(gitdir: &str, worktree: &str) -> (args: Vec<String>)
    ensures
        args.deep_view() == seq!["init"@, "-q"@, "--separate-git-dir"@, gitdir@, worktree@],
{
    let args = vec![owned("init"), owned("-q"), owned("--separate-git-dir"), owned(gitdir), owned(worktree)];
    assert(args.deep_view() =~= seq!["init"@, "-q"@, "--separate-git-dir"@, gitdir@, worktree@]);
    args
}

// ---------------------------------------------------------------------------
// Configuration
// ---------------------------------------------------------------------------

/// The calls that point `origin` at the submodule's URL and switch on the
/// partial clone and non-cone sparse checkout, in order.
pub open spec fn prepare_calls(sm: SubmoduleView, has_origin: bool) -> Seq<Seq<Seq<char>>> {
    let remote = if has_origin {
        seq!["remote"@, "set-url"@, "origin"@, sm.url]
    } else {
        seq!["remote"@, "add"@, "origin"@, sm.url]
    };
    let base = seq![
        remote,
        seq!["config"@, "extensions.partialClone"@, "origin"@],
        seq!["config"@, "remote.origin.promisor"@, "true"@],
    ];
    let filtered = match effective_filter_of(sm.filter) {
        Some(f) => base.push(seq!["config"@, "remote.origin.partialclonefilter"@, f]),
        None => base,
    };
    filtered + seq![
        seq!["config"@, "core.sparseCheckout"@, if sm.sparse.len() > 0 {
            "true"@
        } else {
            "false"@
        }],
        seq!["config"@, "core.sparseCheckoutCone"@, "false"@],
    ]
}

/// The `info/sparse-checkout` file: one pattern per line.
pub open spec fn sparse_file_of(sm: SubmoduleView) -> Option<Seq<char>> {
    if sm.sparse.len() > 0 {
        Some(join(sm.sparse, "\n"@) + "\n"@)
    } else {
        None
    }
}

/// The configuration step of a checkout.
#[derive(Debug)]
pub struct Preparation {
    pub step: Message,
    /// `git` calls to run in the worktree, in order.
    pub calls: Vec<Vec<String>>,
    /// The content of `<gitdir>/info/sparse-checkout`, when there are
    /// patterns (written before the first checkout).
    pub sparse_file: Option<String>,
}

/// Configure the remote, partial clone, promisor and sparse checkout for a
/// worktree whose `origin` remote exists or not (`has_origin`). Idempotent:
/// rerunning converges to the same configuration.
pub fn prepare(sm: &Submodule, has_origin: bool) -> (p: Preparation)
    ensures
        p.step@ == mv(Level::Step, "Configuring remote and sparse checkout"@),
        args_view(p.calls@) == prepare_calls(sm@, has_origin),
        crate::config::opt_view(p.sparse_file) == sparse_file_of(sm@),
{
    let mut calls: Vec<Vec<String>> = Vec::new();
    let remote = if has_origin {
        argv4("remote", "set-url", "origin", sm.url.as_str())
    } else {
        argv4("remote", "add", "origin", sm.url.as_str())
    };
    push_call(&mut calls, remote);
    push_call(&mut calls, argv3("config", "extensions.partialClone", "origin"));
    push_call(&mut calls, argv3("config", "remote.origin.promisor", "true"));
    match sm.effective_filter() {
        Some(f) => {
            push_call(&mut calls, argv3("config", "remote.origin.partialclonefilter", f));
        },
        None => {},
    }
    let on = sm.sparse.len() > 0;
    push_call(&mut calls, argv3("config", "core.sparseCheckout", if on {
        "true"
    } else {
        "false"
    }));
    push_call(&mut calls, argv3("config", "core.sparseCheckoutCone", "false"));
    let ghost expected = prepare_calls(sm@, has_origin);
    assert(args_view(calls@) =~= expected);
    let sparse_file = if on {
        let mut body = text::join_strings(&sm.sparse, "\n");
        push_str(&mut body, "\n");
        Some(body)
    } else {
        None
    };
    Preparation {
        step: Message::new(Level::Step, owned("Configuring remote and sparse checkout")),
        calls,
        sparse_file,
    }
}

// ---------------------------------------------------------------------------
// Fetch and checkout
// ---------------------------------------------------------------------------

/// `git fetch -q [--filter=<f>] [--depth=<d>] origin <refspec>`, honoring
/// the submodule's filter and depth.
pub open spec fn fetch_args_of(sm: SubmoduleView, refspec: Seq<char>) -> Seq<Seq<char>> {
    let head = seq!["fetch"@, "-q"@];
    let with_filter = match effective_filter_of(sm.filter) {
        Some(f) => head.push("--filter="@ + f),
        None => head,
    };
    let with_depth = match effective_depth_of(sm.depth, sm.shallow) {
        Some(d) => with_filter.push("--depth="@ + dec(d as nat)),
        None => with_filter,
    };
    with_depth + seq!["origin"@, refspec]
}

/// The arguments of a fetch of `refspec` into the submodule.
pub fn fetch_args(sm: &Submodule, refspec: &str) -> (args: Vec<String>)
    ensures
        args.deep_view() == fetch_args_of(sm@, refspec@),
{
    let mut args = vec![owned("fetch"), owned("-q")];
    let ghost a0 = args.deep_view();
    assert(a0 =~= seq!["fetch"@, "-q"@]);
    match sm.effective_filter() {
        Some(f) => {
            args.push(cat("--filter=", f));
        },
        None => {},
    }
    let ghost a1 = args.deep_view();
    match sm.effective_depth() {
        Some(d) => {
            let n = text::u32_to_string(d);
            args.push(cat("--depth=", n.as_str()));
        },
        None => {},
    }
    args.push(owned("origin"));
    args.push(owned(refspec));
    assert(args.deep_view() =~= fetch_args_of(sm@, refspec@));
    args
}

/// A fetch of `refspec`: its progress step and arguments (used by `picky
/// add`, where there is no gitlink yet, and by a bump).
pub fn fetch_ref(sm: &Submodule, refspec: &str) -> (r: (Message, Vec<String>))
    ensures
        r.0@ == mv(Level::Step, "Fetching "@ + refspec@ + " (shallow, blobless)"@),
        r.1.deep_view() == fetch_args_of(sm@, refspec@),
{
    (Message::new(Level::Step, cat3("Fetching ", refspec, " (shallow, blobless)")), fetch_args(sm, refspec))
}

/// The follow-up to a fetch when `PICKY_AUTO_GC` is set (`enabled`): a
/// threshold-gated `git gc --auto --quiet`, a no-op on most runs.
pub fn auto_gc(enabled: bool) -> (r: Option<Vec<String>>)
    ensures
        !enabled ==> r is None,
        enabled ==> (r matches Some(a) && a.deep_view() == seq!["gc"@, "--auto"@, "--quiet"@]),
{
    if enabled {
        Some(argv3("gc", "--auto", "--quiet"))
    } else {
        None
    }
}

/// The warning when that follow-up failed (`err` describes how); a failed
/// auto-gc never fails the fetch.
pub fn auto_gc_warning(err: &str) -> (m: Message)
    ensures
        m@ == mv(Level::Warn, "auto-gc failed: "@ + err@),
{
    Message::new(Level::Warn, cat("auto-gc failed: ", err))
}

/// `git cat-file -e <committish>^{commit}`, run with `GIT_NO_LAZY_FETCH=1`
/// so a promisor remote does not full-fetch the object being probed for.
pub fn commit_probe(committish: &str) -> (args: Vec<String>)
    ensures
        args.deep_view() == seq!["cat-file"@, "-e"@, committish@ + "^{commit}"@],
{
    let args = vec![owned("cat-file"), owned("-e"), cat(committish, "^{commit}")];
    assert(args.deep_view() =~= seq!["cat-file"@, "-e"@, committish@ + "^{commit}"@]);
    args
}

/// The fetch of `committish` that checking out needs: none when present,
/// else its step and arguments.
pub open spec fn commit_fetch_of(sm: SubmoduleView, committish: Seq<char>, present: bool) -> Option<
    (MessageView, Seq<Seq<char>>),
> {
    if present {
        None
    } else {
        Some(
            (
                mv(Level::Step, "Fetching "@ + committish + " (shallow, blobless)"@),
                fetch_args_of(sm, committish),
            ),
        )
    }
}

/// Fetch `committish` shallow and blobless unless the probe found it
/// present (`present`): nothing to do, or the step and fetch arguments.
pub fn ensure_commit(sm: &Submodule, committish: &str, present: bool) -> (r: Option<(Message, Vec<String>)>)
    ensures
        present ==> r is None,
        !present ==> (r matches Some(x) && x.0@ == mv(
            Level::Step,
            "Fetching "@ + committish@ + " (shallow, blobless)"@,
        ) && x.1.deep_view() == fetch_args_of(sm@, committish@)),
        (match r {
            Some(x) => Some((x.0@, x.1.deep_view())),
            None => None,
        }) == commit_fetch_of(sm@, committish@, present),
{
    if present {
        None
    } else {
        Some(fetch_ref(sm, committish))
    }
}

/// `checkout -f --detach`, then, with patterns, `sparse-checkout reapply`
/// to trim out-of-sparse paths a pre-existing full checkout left behind.
pub open spec fn checkout_calls_of(sm: SubmoduleView, refish: Seq<char>) -> Seq<Seq<Seq<char>>> {
    let co = seq![seq!["checkout"@, "-q"@, "-f"@, "--detach"@, refish]];
    if sm.sparse.len() > 0 {
        co.push(seq!["sparse-checkout"@, "reapply"@])
    } else {
        co
    }
}

/// The checkout of `refish`: its progress step and the calls to run in the
/// worktree. `-f` repopulates the tree even when the index already matches
/// but files are missing.
pub fn checkout(sm: &Submodule, refish: &str) -> (r: (Message, Vec<Vec<String>>))
    ensures
        r.0@ == mv(Level::Step, "Checking out "@ + refish@),
        args_view(r.1@) == checkout_calls_of(sm@, refish@),
{
    let mut calls: Vec<Vec<String>> = Vec::new();
    push_call(&mut calls, argv5("checkout", "-q", "-f", "--detach", refish));
    if sm.sparse.len() > 0 {
        push_call(&mut calls, argv2("sparse-checkout", "reapply"));
    }
    assert(args_view(calls@) =~= checkout_calls_of(sm@, refish@));
    (Message::new(Level::Step, cat("Checking out ", refish)), calls)
}

/// The size column of `du -sh <worktree>` output: its first word.
pub fn worktree_size(du_out: &str) -> (r: Option<String>)
    ensures
        words(du_out@).len() > 0 ==> (r matches Some(s) && s@ == words(du_out@)[0]),
        words(du_out@).len() == 0 ==> r is None,
{
    let w = text::split_words(du_out);
    if w.len() > 0 {
        Some(w[0].clone())
    } else {
        None
    }
}

/// Preparing again changes nothing: once the worktree's `.git` resolves,
/// the git dir is kept with no step shown, and the configuration planned is
/// the first run's, the remote re-set to the same URL instead of added.
pub proof fn lemma_prepare_rerun(sm: SubmoduleView, is_dir: bool)
    ensures
        gitdir_action_of(true, true, is_dir) == GitDirAction::Keep,
        gitdir_step_of(true, true) is None,
        prepare_calls(sm, false)[0] == seq!["remote"@, "add"@, "origin"@, sm.url],
        prepare_calls(sm, true)[0] == seq!["remote"@, "set-url"@, "origin"@, sm.url],
        prepare_calls(sm, true).len() == prepare_calls(sm, false).len(),
        forall|i: int|
            1 <= i < prepare_calls(sm, true).len() ==> #[trigger] prepare_calls(sm, true)[i]
                == prepare_calls(sm, false)[i],
{
}

/// Patterns joined by line breaks split back into the patterns.
proof fn lemma_split_joined_lines(ps: Seq<Seq<char>>)
    requires
        ps.len() > 0,
        forall|i: int| 0 <= i < ps.len() ==> !(#[trigger] ps[i]).contains('\n'),
    ensures
        text::split(join(ps, "\n"@), '\n') == ps,
    decreases ps.len(),
{
    reveal_strlit("\n");
    if ps.len() == 1 {
        text::lemma_split_single(ps[0], '\n');
        assert(seq![ps[0]] =~= ps);
    } else {
        let prev = ps.drop_last();
        assert forall|i: int| 0 <= i < prev.len() implies !(#[trigger] prev[i]).contains('\n') by {
            assert(prev[i] == ps[i]);
        }
        lemma_split_joined_lines(prev);
        assert(!ps.last().contains('\n')) by {
            assert(ps.last() == ps[ps.len() - 1]);
        }
        assert(join(ps, "\n"@) =~= join(prev, "\n"@).push('\n') + ps.last());
        text::lemma_split_join(join(prev, "\n"@), ps.last(), '\n');
        text::lemma_split_single(ps.last(), '\n');
        assert(prev + seq![ps.last()] =~= ps);
    }
}

/// The `info/sparse-checkout` file holds one pattern per line: with
/// patterns (none containing a line break), the file's lines, split at line
/// breaks less the empty piece after the final one, are exactly the pattern
/// list in order; without patterns no file is written.
pub proof fn lemma_sparse_file_lines(sm: SubmoduleView)
    requires
        forall|i: int| 0 <= i < sm.sparse.len() ==> !(#[trigger] sm.sparse[i]).contains('\n'),
    ensures
        sm.sparse.len() == 0 ==> sparse_file_of(sm) is None,
        sm.sparse.len() > 0 ==> (sparse_file_of(sm) matches Some(f) && text::split(f, '\n').last()
            == Seq::<char>::empty() && text::split(f, '\n').drop_last() == sm.sparse),
{
    reveal_strlit("\n");
    if sm.sparse.len() > 0 {
        let j = join(sm.sparse, "\n"@);
        lemma_split_joined_lines(sm.sparse);
        assert(j + "\n"@ =~= j.push('\n') + Seq::<char>::empty());
        text::lemma_split_join(j, Seq::<char>::empty(), '\n');
        assert(text::split(Seq::<char>::empty(), '\n') == seq![Seq::<char>::empty()]);
        assert((sm.sparse + seq![Seq::<char>::empty()]).drop_last() =~= sm.sparse);
    }
}

/// A fetch is as deep as the submodule says: with a depth `d` set, the
/// arguments hold `--depth=d` whether or not the submodule is marked
/// shallow; with neither a depth nor `shallow`, no `--depth` argument is
/// passed and the whole history is fetched. The ref comes last, from
/// `origin`.
pub proof fn lemma_fetch_depth(sm: SubmoduleView, refspec: Seq<char>)
    ensures
        sm.depth matches Some(d) ==> fetch_args_of(sm, refspec).contains("--depth="@ + dec(d as nat)),
        sm.depth is None && sm.shallow ==> fetch_args_of(sm, refspec).contains("--depth="@ + dec(1)),
        sm.depth is None && !sm.shallow ==> forall|i: int|
            0 <= i < fetch_args_of(sm, refspec).len() - 1 ==> !text::starts_with(
                #[trigger] fetch_args_of(sm, refspec)[i],
                "--depth="@,
            ),
        fetch_args_of(sm, refspec).last() == refspec,
        fetch_args_of(sm, refspec)[fetch_args_of(sm, refspec).len() - 2] == "origin"@,
{
    reveal_strlit("--depth=");
    reveal_strlit("fetch");
    reveal_strlit("-q");
    reveal_strlit("--filter=");
    reveal_strlit("origin");
    let args = fetch_args_of(sm, refspec);
    let head = seq!["fetch"@, "-q"@];
    let wf = match effective_filter_of(sm.filter) {
        Some(f) => head.push("--filter="@ + f),
        None => head,
    };
    match effective_depth_of(sm.depth, sm.shallow) {
        Some(d) => {
            assert(args[wf.len() as int] == "--depth="@ + dec(d as nat));
        },
        None => {
            assert(args =~= wf + seq!["origin"@, refspec]);
            assert forall|i: int| 0 <= i < args.len() - 1 implies !text::starts_with(
                #[trigger] args[i],
                "--depth="@,
            ) by {
                if i == 2 && wf.len() == 3 {
                    assert(args[i][2] == 'f');
                    assert("--depth="@[2] == 'd');
                    assert(args[i].subrange(0, 8)[2] == 'f');
                } else {
                    assert(args[i].len() < 8);
                }
            }
        },
    }
}

} // verus!
