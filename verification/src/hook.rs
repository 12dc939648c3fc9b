//! The optional post-update hook: a shell command a submodule may declare via
//! `picky.<name>.postUpdate`, run after its working tree is (re)materialized.
//!
//! The command text comes from `.gitmodules`, which is committed and travels
//! with the repo, so in a hostile clone it is attacker-controlled. It is never
//! run unconditionally: approval is recorded in *local*, untracked config
//! (`picky.<name>.trustedPostUpdate` and `picky.<name>.trustedPostUpdateSha`,
//! in `.git/config`, never `.gitmodules`), pinned to both the command text and
//! the submodule's checked-out SHA, and asked again whenever either changes.

use vstd::prelude::*;

use crate::config::Submodule;
use crate::console::{messages_view, mv, say, Level, Message, MessageView};
use crate::text;
use crate::text::{lower, owned, push_str, trim};

verus! {

/// `picky.<name>.<var>`.
pub open spec fn local_key(name: Seq<char>, var: Seq<char>) -> Seq<char> {
    "picky."@ + name + "."@ + var
}

fn key_for(sm: &Submodule, var: &str) -> (k: String)
    ensures
        k@ == local_key(sm.name@, var@),
{
    let mut k = owned("picky.");
    push_str(&mut k, sm.name.as_str());
    push_str(&mut k, ".");
    push_str(&mut k, var);
    k
}

/// The local-config key the approved command text is recorded under.
/// Deliberately not in `.gitmodules`: that file is exactly what a hostile
/// clone controls.
pub fn trust_key(sm: &Submodule) -> (k: String)
    ensures
        k@ == local_key(sm.name@, "trustedPostUpdate"@),
{
    key_for(sm, "trustedPostUpdate")
}

/// The local-config key the approved SHA is recorded under.
pub fn trust_sha_key(sm: &Submodule) -> (k: String)
    ensures
        k@ == local_key(sm.name@, "trustedPostUpdateSha"@),
{
    key_for(sm, "trustedPostUpdateSha")
}

/// How to proceed with a declared hook.
#[derive(Debug)]
pub enum Trust {
    /// Approved for exactly this command text at exactly this SHA: run it.
    Trusted,
    /// `PICKY_TRUST_HOOKS` approves it: record the approval, then run it.
    Record,
    /// Not approved, but a terminal can be asked.
    Ask,
    /// Not approved and nobody to ask: refuse.
    Refuse,
}

pub open spec fn opt_eq(o: Option<String>, s: Seq<char>) -> bool {
    match o {
        Some(x) => x@ == s,
        None => false,
    }
}

/// Decide whether the hook `cmd` may run at submodule SHA `sha`, given the
/// approval recorded in local config, whether `PICKY_TRUST_HOOKS` is set,
/// and whether stdin is a terminal.
pub fn trust_decision(
    cmd: &str,
    sha: &str,
    recorded_cmd: &Option<String>,
    recorded_sha: &Option<String>,
    trust_env: bool,
    interactive: bool,
) -> (t: Trust)
    ensures
        (t is Trusted) <==> (opt_eq(*recorded_cmd, cmd@) && opt_eq(*recorded_sha, sha@)),
        !(t is Trusted) ==> (trust_env <==> t is Record),
        !(t is Trusted) && !trust_env ==> (interactive <==> t is Ask),
{
    let cmd_ok = match recorded_cmd {
        Some(c) => text::str_eq(c.as_str(), cmd),
        None => false,
    };
    let sha_ok = match recorded_sha {
        Some(s) => text::str_eq(s.as_str(), sha),
        None => false,
    };
    if cmd_ok && sha_ok {
        Trust::Trusted
    } else if trust_env {
        Trust::Record
    } else if interactive {
        Trust::Ask
    } else {
        Trust::Refuse
    }
}

/// A hook approved for one command text at one SHA is not approved after a
/// SHA bump, even with identical command text.
pub proof fn lemma_sha_bump_rearms(
    cmd: Seq<char>,
    old_sha: Seq<char>,
    new_sha: Seq<char>,
    recorded_cmd: Option<String>,
    recorded_sha: Option<String>,
)
    requires
        opt_eq(recorded_cmd, cmd),
        opt_eq(recorded_sha, old_sha),
        old_sha != new_sha,
    ensures
        !(opt_eq(recorded_cmd, cmd) && opt_eq(recorded_sha, new_sha)),
{
}

/// Whether a typed answer approves: `y` or `yes`, any case, surrounding
/// blanks ignored.
pub open spec fn approves(answer: Seq<char>) -> bool {
    let a = lower(trim(answer));
    a == "y"@ || a == "yes"@
}

fn ascii_lower_string(s: &str) -> (r: String)
    ensures
        r@ == lower(s@),
{
    let v = text::chars_of(s);
    let mut r = String::new();
    let mut i: usize = 0;
    while i < v.len()
        invariant
            i <= v.len(),
            v@ == s@,
            r@ == lower(v@.take(i as int)),
        decreases v.len() - i,
    {
        let c = v[i];
        let l = if 'A' <= c && c <= 'Z' {
            let u = text::char_code(c) + 32;
            let l = char_from(u);
            l
        } else {
            c
        };
        assert(l == text::ascii_lower(c));
        text::push_char(&mut r, l);
        assert(lower(v@.take(i + 1)) =~= lower(v@.take(i as int)).push(text::ascii_lower(c)));
        i = i + 1;
    }
    assert(v@.take(v.len() as int) == v@);
    r
}

fn char_from(u: u32) -> (c: char)
    requires
        0x61 <= u <= 0x7a,
    ensures
        c as int == u as int,
        c == (u as char),
{
    let b = u as u8;
    b as char
}

/// Whether the answer to the approval prompt approves.
pub fn approved(answer: &str) -> (r: bool)
    ensures
        r == approves(answer@),
{
    let t = text::str_trim(answer);
    let l = ascii_lower_string(t.as_str());
    text::str_eq(l.as_str(), "y") || text::str_eq(l.as_str(), "yes")
}

/// The local-config writes that record approval of `cmd` at `sha`.
pub fn record_calls(sm: &Submodule, cmd: &str, sha: &str) -> (calls: Vec<Vec<String>>)
    ensures
        crate::sparse::args_view(calls@) == seq![
            seq!["config"@, local_key(sm.name@, "trustedPostUpdate"@), cmd@],
            seq!["config"@, local_key(sm.name@, "trustedPostUpdateSha"@), sha@],
        ],
{
    let mut calls: Vec<Vec<String>> = Vec::new();
    let k = trust_key(sm);
    let ks = trust_sha_key(sm);
    crate::sparse::push_call(&mut calls, crate::sparse::argv3("config", k.as_str(), cmd));
    crate::sparse::push_call(&mut calls, crate::sparse::argv3("config", ks.as_str(), sha));
    assert(crate::sparse::args_view(calls@) =~= seq![
        seq!["config"@, local_key(sm.name@, "trustedPostUpdate"@), cmd@],
        seq!["config"@, local_key(sm.name@, "trustedPostUpdateSha"@), sha@],
    ]);
    calls
}

/// The warning shown before asking or refusing.
pub fn warning(sm: &Submodule, cmd: &str) -> (out: Vec<Message>)
    ensures
        messages_view(out@) == seq![
            mv(
                Level::Warn,
                sm.path@
                    + " declares a post-update hook sourced from .gitmodules — a file that ships with the repo and could carry a malicious command:"@,
            ),
            mv(Level::Plain, "  "@ + cmd@),
        ],
{
    let mut out: Vec<Message> = Vec::new();
    let mut w = sm.path.clone();
    push_str(
        &mut w,
        " declares a post-update hook sourced from .gitmodules — a file that ships with the repo and could carry a malicious command:",
    );
    say(&mut out, Level::Warn, w);
    let mut c = owned("  ");
    push_str(&mut c, cmd);
    say(&mut out, Level::Plain, c);
    assert(messages_view(out@) =~= seq![
        mv(
            Level::Warn,
            sm.path@
                + " declares a post-update hook sourced from .gitmodules — a file that ships with the repo and could carry a malicious command:"@,
        ),
        mv(Level::Plain, "  "@ + cmd@),
    ]);
    out
}

/// Why an unapproved hook is refused without a terminal, with how to
/// approve it.
pub fn refusal(sm: &Submodule, cmd: &str, sha: &str) -> (m: String)
    ensures
        m@ == "refusing to run an unapproved post-update hook non-interactively.\n  Approve it once interactively, set PICKY_TRUST_HOOKS=1, or trust it directly:\n  git config "@
            + local_key(sm.name@, "trustedPostUpdate"@) + " '"@ + cmd@ + "'\n  git config "@
            + local_key(sm.name@, "trustedPostUpdateSha"@) + " '"@ + sha@ + "'"@,
{
    let mut m = owned(
        "refusing to run an unapproved post-update hook non-interactively.\n  Approve it once interactively, set PICKY_TRUST_HOOKS=1, or trust it directly:\n  git config ",
    );
    let k = trust_key(sm);
    push_str(&mut m, k.as_str());
    push_str(&mut m, " '");
    push_str(&mut m, cmd);
    push_str(&mut m, "'\n  git config ");
    let ks = trust_sha_key(sm);
    push_str(&mut m, ks.as_str());
    push_str(&mut m, " '");
    push_str(&mut m, sha);
    push_str(&mut m, "'");
    m
}

/// Why a hook the user declined is not run.
pub fn rejection(sm: &Submodule) -> (m: String)
    ensures
        m@ == "post-update hook for "@ + sm.path@
            + " was not approved — re-run and accept, or remove `picky."@ + sm.name@
            + ".postUpdate` from .gitmodules"@,
{
    let mut m = owned("post-update hook for ");
    push_str(&mut m, sm.path.as_str());
    push_str(&mut m, " was not approved — re-run and accept, or remove `picky.");
    push_str(&mut m, sm.name.as_str());
    push_str(&mut m, ".postUpdate` from .gitmodules");
    m
}

/// The environment the hook runs with: the superproject root, and the
/// submodule's section name, path and checked-out SHA.
pub fn hook_env(root: &str, sm: &Submodule, sha: &str) -> (env: Vec<(String, String)>)
    ensures
        env.deep_view() == seq![
            ("PICKY_ROOT"@, root@),
            ("PICKY_SUBMODULE_NAME"@, sm.name@),
            ("PICKY_SUBMODULE_PATH"@, sm.path@),
            ("PICKY_SUBMODULE_SHA"@, sha@),
        ],
{
    let env = vec![
        (owned("PICKY_ROOT"), owned(root)),
        (owned("PICKY_SUBMODULE_NAME"), sm.name.clone()),
        (owned("PICKY_SUBMODULE_PATH"), sm.path.clone()),
        (owned("PICKY_SUBMODULE_SHA"), owned(sha)),
    ];
    assert(env.deep_view() =~= seq![
        ("PICKY_ROOT"@, root@),
        ("PICKY_SUBMODULE_NAME"@, sm.name@),
        ("PICKY_SUBMODULE_PATH"@, sm.path@),
        ("PICKY_SUBMODULE_SHA"@, sha@),
    ]);
    env
}

/// The message of a hook that exited unsuccessfully (`status` as the
/// caller describes it).
pub fn failure(sm: &Submodule, status: &str) -> (m: String)
    ensures
        m@ == "post-update hook for "@ + sm.path@ + " failed ("@ + status@ + ")"@,
{
    let mut m = owned("post-update hook for ");
    push_str(&mut m, sm.path.as_str());
    push_str(&mut m, " failed (");
    push_str(&mut m, status);
    push_str(&mut m, ")");
    m
}

/// How a hook run ends: success when it exited successfully, else the
/// error naming the submodule and how it exited (`status`).
pub fn outcome(sm: &Submodule, succeeded: bool, status: &str) -> (r: Result<(), String>)
    ensures
        succeeded ==> r is Ok,
        !succeeded ==> (r matches Err(m) && m@ == "post-update hook for "@ + sm.path@ + " failed ("@
            + status@ + ")"@),
{
    if succeeded {
        Ok(())
    } else {
        Err(failure(sm, status))
    }
}

} // verus!
