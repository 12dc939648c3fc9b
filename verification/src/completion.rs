//! Shell completion support: which submodule's refs to offer for `picky
//! update <path> <TAB>`.

use vstd::prelude::*;

use crate::config::{self, find_of, load_from, lookup_of, names_of, GitConfig, Submodule, SubmoduleView};
use crate::text;

verus! {

/// The position of the first `x` in `s`.
pub open spec fn position(s: Seq<Seq<char>>, x: Seq<char>) -> Option<nat>
    decreases s.len(),
{
    if s.len() == 0 {
        None
    } else if s[0] == x {
        Some(0)
    } else {
        match position(s.drop_first(), x) {
            Some(i) => Some(i + 1),
            None => None,
        }
    }
}

/// The first of `words` that is not a flag and names a submodule.
pub open spec fn first_named(cfg: Seq<(Seq<char>, Seq<char>)>, words: Seq<Seq<char>>) -> Option<SubmoduleView>
    decreases words.len(),
{
    if words.len() == 0 {
        None
    } else if !(words[0].len() > 0 && words[0][0] == '-') && find_of(cfg, words[0]) is Some {
        find_of(cfg, words[0])
    } else {
        first_named(cfg, words.drop_first())
    }
}

/// The submodule `picky update` is completing for: the first declared
/// submodule named after `update` on the command line being completed (the
/// words after `--`), else the lone submodule.
pub open spec fn update_target(cfg: Seq<(Seq<char>, Seq<char>)>, args: Seq<Seq<char>>) -> Option<SubmoduleView> {
    let from_line = match position(args, "--"@) {
        Some(d) => {
            let words = args.skip(d as int + 1);
            match position(words, "update"@) {
                Some(u) => first_named(cfg, words.skip(u as int + 1)),
                None => None,
            }
        },
        None => None,
    };
    match from_line {
        Some(sm) => Some(sm),
        None => if names_of(cfg).len() == 1 {
            Some(load_from(lookup_of(cfg), names_of(cfg)[0]))
        } else {
            None
        },
    }
}

fn position_in(v: &Vec<String>, lo: usize, x: &str) -> (r: Option<usize>)
    requires
        lo <= v.len(),
    ensures
        match r {
            Some(k) => lo <= k < v.len() && position(v.deep_view().skip(lo as int), x@) == Some((k - lo) as nat),
            None => position(v.deep_view().skip(lo as int), x@) is None,
        },
{
    let ghost s = v.deep_view().skip(lo as int);
    let mut i = lo;
    assert(v.deep_view().skip(lo as int).skip(0) == s);
    while i < v.len()
        invariant
            lo <= i <= v.len(),
            s == v.deep_view().skip(lo as int),
            position(s, x@) == match position(v.deep_view().skip(i as int), x@) {
                Some(k) => Some((k + (i - lo)) as nat),
                None => None::<nat>,
            },
        decreases v.len() - i,
    {
        let ghost t = v.deep_view().skip(i as int);
        assert(t[0] == v[i as int]@);
        assert(t.drop_first() == v.deep_view().skip(i + 1));
        if text::str_eq(v[i].as_str(), x) {
            return Some(i);
        }
        i = i + 1;
    }
    assert(v.deep_view().skip(v.len() as int).len() == 0);
    None
}

/// The first of `args[lo..]` that is not a flag and names a submodule.
fn first_named_from(cfg: &GitConfig, args: &Vec<String>, lo: usize) -> (r: Option<Submodule>)
    requires
        lo <= args.len(),
    ensures
        match first_named(cfg@, args.deep_view().skip(lo as int)) {
            Some(sm) => r matches Some(x) && x@ == sm,
            None => r is None,
        },
{
    let ghost av = args.deep_view();
    let mut i = lo;
    while i < args.len()
        invariant
            lo <= i <= args.len(),
            av == args.deep_view(),
            first_named(cfg@, av.skip(lo as int)) == first_named(cfg@, av.skip(i as int)),
        decreases args.len() - i,
    {
        let ghost t = av.skip(i as int);
        assert(t[0] == args[i as int]@);
        assert(t.drop_first() == av.skip(i + 1));
        let w = text::chars_of(args[i].as_str());
        let flag = w.len() > 0 && w[0] == '-';
        if !flag {
            match config::find(cfg, args[i].as_str()) {
                Ok(sm) => {
                    return Some(sm);
                },
                Err(_) => {},
            }
        }
        i = i + 1;
    }
    assert(av.skip(args.len() as int).len() == 0);
    None
}

/// The submodule whose refs `picky update` completion offers, from the
/// process arguments of a completion request.
pub fn update_submodule(cfg: &GitConfig, args: &Vec<String>) -> (r: Option<Submodule>)
    ensures
        match update_target(cfg@, args.deep_view()) {
            Some(sm) => r matches Some(x) && x@ == sm,
            None => r is None,
        },
{
    let ghost av = args.deep_view();
    assert(av.skip(0) == av);
    let mut found: Option<Submodule> = None;
    match position_in(args, 0, "--") {
        Some(d) => {
            let ghost words = av.skip(d + 1);
            match position_in(args, d + 1, "update") {
                Some(u) => {
                    assert(words.skip(u - d) == av.skip(u + 1));
                    found = first_named_from(cfg, args, u + 1);
                },
                None => {},
            }
        },
        None => {},
    }
    match found {
        Some(sm) => Some(sm),
        None => match config::only(cfg) {
            Ok(sm) => Some(sm),
            Err(_) => None,
        },
    }
}

} // verus!
