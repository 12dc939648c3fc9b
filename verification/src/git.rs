//! What picky makes of the `git` CLI's answers: the version check, the
//! trimmed output of a capture, and the error messages of failed calls.
//! Spawning `git` is the caller's part; every partial-clone / sparse-checkout
//! incantation is a list of arguments built elsewhere in this library.

use vstd::prelude::*;

use crate::text;
use crate::text::{
    chars_of, digits_prefix, join, owned, parse_u32, push_str, split, split_chars, strip_prefix,
    trim, trim_end,
};

verus! {

// ---------------------------------------------------------------------------
// Version
// ---------------------------------------------------------------------------

/// Minimum git version picky requires (`GIT_NO_LAZY_FETCH` was added in 2.41).
pub const MIN_VERSION: (u32, u32, u32) = (2, 41, 0);

/// The number that the leading digits of `s` spell, if any.
pub open spec fn leading_number(s: Seq<char>) -> Option<u32> {
    parse_u32(digits_prefix(s))
}

/// `"git version 2.55.0"` (possibly with a platform suffix such as
/// `".windows.1"` or `" (Apple Git-143)"`) as `(major, minor, patch)`; a
/// missing or unparseable patch component is `0`.
pub open spec fn version_of(text: Seq<char>) -> Option<(u32, u32, u32)> {
    match strip_prefix(trim(text), "git version "@) {
        None => None,
        Some(ver) => {
            let p = split(ver, '.');
            if p.len() < 2 {
                None
            } else {
                match (leading_number(p[0]), leading_number(p[1])) {
                    (Some(major), Some(minor)) => {
                        let patch = if p.len() >= 3 {
                            match leading_number(p[2]) {
                                Some(x) => x,
                                None => 0,
                            }
                        } else {
                            0
                        };
                        Some((major, minor, patch))
                    },
                    _ => None,
                }
            }
        },
    }
}

/// `a` is an older version than `b` (tuple order).
pub open spec fn older(a: (u32, u32, u32), b: (u32, u32, u32)) -> bool {
    a.0 < b.0 || (a.0 == b.0 && (a.1 < b.1 || (a.1 == b.1 && a.2 < b.2)))
}

fn leading_number_of(piece: &Vec<char>) -> (r: Option<u32>)
    ensures
        r == leading_number(piece@),
{
    let k = text::count_digits(piece, 0, piece.len());
    assert(piece@.subrange(0, piece@.len() as int) == piece@);
    text::parse_u32_at(piece, 0, k)
}

/// Parse `git --version` output into `(major, minor, patch)`.
pub fn parse_version(text: &str) -> (r: Option<(u32, u32, u32)>)
    ensures
        r == version_of(text@),
{
    let t = text::str_trim(text);
    let ver = match text::strip_prefix_str(t.as_str(), "git version ") {
        Some(v) => v,
        None => {
            return None;
        },
    };
    let vc = chars_of(ver.as_str());
    let parts = split_chars(&vc, '.');
    if parts.len() < 2 {
        return None;
    }
    assert(parts[0]@ == split(ver@, '.')[0]);
    assert(parts[1]@ == split(ver@, '.')[1]);
    let major = match leading_number_of(&parts[0]) {
        Some(x) => x,
        None => {
            return None;
        },
    };
    let minor = match leading_number_of(&parts[1]) {
        Some(x) => x,
        None => {
            return None;
        },
    };
    let patch = if parts.len() >= 3 {
        assert(parts[2]@ == split(ver@, '.')[2]);
        match leading_number_of(&parts[2]) {
            Some(x) => x,
            None => 0,
        }
    } else {
        0
    };
    Some((major, minor, patch))
}

/// Whether version `a` is older than `b`.
pub fn is_older(a: (u32, u32, u32), b: (u32, u32, u32)) -> (r: bool)
    ensures
        r == older(a, b),
{
    a.0 < b.0 || (a.0 == b.0 && (a.1 < b.1 || (a.1 == b.1 && a.2 < b.2)))
}

/// Why the installed git cannot be used.
#[derive(Debug)]
pub enum VersionError {
    /// `git --version` exited unsuccessfully.
    Failed,
    /// Its output (trimmed) names no version.
    Unparseable(String),
    /// The version is older than [`MIN_VERSION`].
    TooOld((u32, u32, u32)),
}

fn version_text(v: (u32, u32, u32)) -> (s: String)
    ensures
        s@ == text::dec(v.0 as nat) + "."@ + text::dec(v.1 as nat) + "."@ + text::dec(v.2 as nat),
{
    let mut s = text::u32_to_string(v.0);
    push_str(&mut s, ".");
    let b = text::u32_to_string(v.1);
    push_str(&mut s, b.as_str());
    push_str(&mut s, ".");
    let c = text::u32_to_string(v.2);
    push_str(&mut s, c.as_str());
    s
}

/// `major.minor.patch`.
pub open spec fn version_string(v: (u32, u32, u32)) -> Seq<char> {
    text::dec(v.0 as nat) + "."@ + text::dec(v.1 as nat) + "."@ + text::dec(v.2 as nat)
}

impl VersionError {
    /// The message shown to the user, as text.
    pub open spec fn message_of(&self) -> Seq<char> {
        match self {
            VersionError::Failed => "`git --version` failed"@,
            VersionError::Unparseable(t) => "couldn't parse git version from: "@ + t@,
            VersionError::TooOld(v) => "picky requires git >= "@ + version_string(MIN_VERSION) + " (for GIT_NO_LAZY_FETCH), found "@ + version_string(*v) + "; please upgrade"@,
        }
    }

    /// The message shown to the user.
    pub fn message(&self) -> (m: String)
        ensures
            m@ == self.message_of(),
    {
        match self {
            VersionError::Failed => owned("`git --version` failed"),
            VersionError::Unparseable(t) => {
                let mut m = owned("couldn't parse git version from: ");
                push_str(&mut m, t.as_str());
                m
            },
            VersionError::TooOld(v) => {
                let mut m = owned("picky requires git >= ");
                let min = version_text(MIN_VERSION);
                push_str(&mut m, min.as_str());
                push_str(&mut m, " (for GIT_NO_LAZY_FETCH), found ");
                let found = version_text(*v);
                push_str(&mut m, found.as_str());
                push_str(&mut m, "; please upgrade");
                m
            },
        }
    }
}

/// Judge the installed git from `git --version`: whether it ran, and what
/// it printed. Accepted when it names a version no older than
/// [`MIN_VERSION`].
pub fn check_version(succeeded: bool, stdout: &str) -> (r: Result<(u32, u32, u32), VersionError>)
    ensures
        !succeeded ==> (r matches Err(VersionError::Failed)),
        succeeded ==> match version_of(stdout@) {
            None => r matches Err(VersionError::Unparseable(t)) && t@ == trim(stdout@),
            Some(v) => if older(v, MIN_VERSION) {
                r matches Err(VersionError::TooOld(found)) && found == v
            } else {
                r == Ok::<(u32, u32, u32), VersionError>(v)
            },
        },
{
    if !succeeded {
        return Err(VersionError::Failed);
    }
    match parse_version(stdout) {
        None => Err(VersionError::Unparseable(text::str_trim(stdout))),
        Some(v) => {
            if is_older(v, MIN_VERSION) {
                Err(VersionError::TooOld(v))
            } else {
                Ok(v)
            }
        },
    }
}

// ---------------------------------------------------------------------------
// Outcomes of git calls
// ---------------------------------------------------------------------------

/// What a finished `git` call left: whether it exited successfully, and its
/// standard output and error.
#[derive(Debug)]
pub struct Outcome {
    pub success: bool,
    pub stdout: String,
    pub stderr: String,
}

/// A failed git call, with the message shown to the user.
#[derive(Debug)]
pub struct GitError {
    pub message: String,
}

/// `` `git <args>` ``.
pub open spec fn quoted(args: Seq<Seq<char>>) -> Seq<char> {
    "`git "@ + join(args, " "@) + "`"@
}

fn quote(args: &Vec<String>) -> (s: String)
    ensures
        s@ == quoted(args.deep_view()),
{
    let mut s = owned("`git ");
    let j = text::join_strings(args, " ");
    push_str(&mut s, j.as_str());
    push_str(&mut s, "`");
    s
}

/// A call whose output is not needed: an error naming the call and how it
/// exited (`status`) unless it succeeded.
pub fn run(args: &Vec<String>, succeeded: bool, status: &str) -> (r: Result<(), GitError>)
    ensures
        succeeded ==> r is Ok,
        !succeeded ==> (r matches Err(e) && e.message@ == quoted(args.deep_view()) + " exited with "@ + status@),
{
    if succeeded {
        Ok(())
    } else {
        let mut m = quote(args);
        push_str(&mut m, " exited with ");
        push_str(&mut m, status);
        Err(GitError { message: m })
    }
}

/// A call whose output is wanted: its standard output with trailing
/// whitespace trimmed, or an error naming the call and quoting its stderr.
pub fn capture(args: &Vec<String>, out: &Outcome) -> (r: Result<String, GitError>)
    ensures
        out.success ==> (r matches Ok(s) && s@ == trim_end(out.stdout@)),
        !out.success ==> (r matches Err(e) && e.message@ == quoted(args.deep_view()) + " failed:\n"@ + trim_end(out.stderr@)),
{
    if out.success {
        Ok(text::str_trim_end(out.stdout.as_str()))
    } else {
        let mut m = quote(args);
        push_str(&mut m, " failed:\n");
        let e = text::str_trim_end(out.stderr.as_str());
        push_str(&mut m, e.as_str());
        Err(GitError { message: m })
    }
}

/// A query that may cleanly fail (e.g. `config --get` of a missing key):
/// the trimmed output on success, nothing otherwise.
pub fn capture_opt(out: &Outcome) -> (r: Option<String>)
    ensures
        out.success ==> (r matches Some(s) && s@ == trim_end(out.stdout@)),
        !out.success ==> r is None,
{
    if out.success {
        Some(text::str_trim_end(out.stdout.as_str()))
    } else {
        None
    }
}

/// A predicate query (`cat-file -e`, `remote get-url`, `rev-parse
/// --verify`): whether the call succeeded.
pub fn ok(out: &Outcome) -> (r: bool)
    ensures
        r == out.success,
{
    out.success
}

/// The superproject root from `git rev-parse --show-toplevel`.
pub fn repo_root(out: &Outcome) -> (r: Result<String, GitError>)
    ensures
        out.success ==> (r matches Ok(s) && s@ == trim_end(out.stdout@)),
        !out.success ==> (r matches Err(e) && e.message@ == "not inside a git repository: "@ + quoted(seq!["rev-parse"@, "--show-toplevel"@]) + " failed:\n"@ + trim_end(out.stderr@)),
{
    let args = vec![owned("rev-parse"), owned("--show-toplevel")];
    assert(args.deep_view() =~= seq!["rev-parse"@, "--show-toplevel"@]);
    match capture(&args, out) {
        Ok(s) => Ok(s),
        Err(e) => {
            let mut m = owned("not inside a git repository: ");
            push_str(&mut m, e.message.as_str());
            Err(GitError { message: m })
        },
    }
}

} // verus!
