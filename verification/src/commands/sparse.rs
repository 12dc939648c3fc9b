//! `picky sparse <list|add|remove|set|clear>`: edit a submodule's
//! sparse-checkout patterns. This module decides the new pattern list, what
//! to record in `.gitmodules` and what to report; the caller runs the
//! recorded `git config` calls, stages `.gitmodules` and re-initializes the
//! submodule when asked to.

use vstd::prelude::*;

use crate::config::{
    self, calls_view, find_of, load_from, lookup_of, names_of, sparse_calls, ConfigCall,
    ConfigError, GitConfig, Submodule,
};
use crate::console::{messages_view, mv, say, Level, Message, MessageView};
use crate::text;
use crate::text::{dec, owned, push_str};

verus! {

// ---------------------------------------------------------------------------
// Pattern-list edits
// ---------------------------------------------------------------------------

/// The position of the first `x` in `s`.
pub open spec fn first_pos(s: Seq<Seq<char>>, x: Seq<char>) -> Option<nat>
    decreases s.len(),
{
    if s.len() == 0 {
        None
    } else if s[0] == x {
        Some(0)
    } else {
        match first_pos(s.drop_first(), x) {
            Some(i) => Some(i + 1),
            None => None,
        }
    }
}

/// `s` without its first `x` (exact match), or `s` when it has none.
pub open spec fn remove_one(s: Seq<Seq<char>>, x: Seq<char>) -> Seq<Seq<char>> {
    match first_pos(s, x) {
        Some(i) => s.remove(i as int),
        None => s,
    }
}

/// Append each of `pats` that is not already present.
pub open spec fn add_patterns(cur: Seq<Seq<char>>, pats: Seq<Seq<char>>) -> Seq<Seq<char>>
    decreases pats.len(),
{
    if pats.len() == 0 {
        cur
    } else {
        let acc = add_patterns(cur, pats.drop_last());
        if acc.contains(pats.last()) {
            acc
        } else {
            acc.push(pats.last())
        }
    }
}

/// Remove the first occurrence of each of `pats`, in order.
pub open spec fn remove_patterns(cur: Seq<Seq<char>>, pats: Seq<Seq<char>>) -> Seq<Seq<char>>
    decreases pats.len(),
{
    if pats.len() == 0 {
        cur
    } else {
        remove_one(remove_patterns(cur, pats.drop_last()), pats.last())
    }
}

/// `pats` without repeats, keeping the first occurrence of each.
pub open spec fn dedup(pats: Seq<Seq<char>>) -> Seq<Seq<char>> {
    add_patterns(Seq::empty(), pats)
}

/// The warnings for the patterns `add` skips because they are present.
pub open spec fn add_warnings(cur: Seq<Seq<char>>, pats: Seq<Seq<char>>) -> Seq<MessageView>
    decreases pats.len(),
{
    if pats.len() == 0 {
        Seq::empty()
    } else {
        let prev = add_warnings(cur, pats.drop_last());
        if add_patterns(cur, pats.drop_last()).contains(pats.last()) {
            prev.push(mv(Level::Warn, "pattern already present, skipping: "@ + pats.last()))
        } else {
            prev
        }
    }
}

/// The warnings for the patterns `remove` skips because they are absent.
pub open spec fn remove_warnings(cur: Seq<Seq<char>>, pats: Seq<Seq<char>>) -> Seq<MessageView>
    decreases pats.len(),
{
    if pats.len() == 0 {
        Seq::empty()
    } else {
        let prev = remove_warnings(cur, pats.drop_last());
        if remove_patterns(cur, pats.drop_last()).contains(pats.last()) {
            prev
        } else {
            prev.push(mv(Level::Warn, "pattern not present, skipping: "@ + pats.last()))
        }
    }
}

/// Whether `v` holds `s`.
pub fn contains_str(v: &Vec<String>, s: &String) -> (r: bool)
    ensures
        r == v.deep_view().contains(s@),
{
    let mut i: usize = 0;
    while i < v.len()
        invariant
            i <= v.len(),
            forall|j: int| 0 <= j < i ==> v.deep_view()[j] != s@,
        decreases v.len() - i,
    {
        if v[i] == *s {
            assert(v.deep_view()[i as int] == s@);
            return true;
        }
        i = i + 1;
    }
    false
}

proof fn lemma_first_pos(s: Seq<Seq<char>>, x: Seq<char>, i: int)
    requires
        0 <= i <= s.len(),
        forall|j: int| 0 <= j < i ==> s[j] != x,
    ensures
        i < s.len() && s[i] == x ==> first_pos(s, x) == Some(i as nat),
        i == s.len() ==> first_pos(s, x) is None,
    decreases i,
{
    if i > 0 {
        lemma_first_pos(s.drop_first(), x, i - 1);
    } else if s.len() > 0 && s[0] != x {
        if i == s.len() {
        }
    }
}

proof fn lemma_first_pos_contains(s: Seq<Seq<char>>, x: Seq<char>)
    ensures
        first_pos(s, x) is None <==> !s.contains(x),
        first_pos(s, x) matches Some(i) ==> i < s.len() && s[i as int] == x,
    decreases s.len(),
{
    if s.len() > 0 {
        lemma_first_pos_contains(s.drop_first(), x);
        if s[0] != x {
            if s.drop_first().contains(x) {
                let k = choose|k: int| 0 <= k < s.drop_first().len() && s.drop_first()[k] == x;
                assert(s[k + 1] == x);
            }
            if s.contains(x) {
                let k = choose|k: int| 0 <= k < s.len() && s[k] == x;
                assert(s.drop_first()[k - 1] == x);
            }
        } else {
            assert(s[0] == x);
        }
    }
}

/// `v` without its first `x`, and whether one was there.
fn remove_first(v: &mut Vec<String>, x: &String) -> (found: bool)
    ensures
        final(v).deep_view() == remove_one(old(v).deep_view(), x@),
        found == old(v).deep_view().contains(x@),
{
    let ghost s = v.deep_view();
    proof {
        lemma_first_pos_contains(s, x@);
    }
    let mut i: usize = 0;
    while i < v.len()
        invariant
            s == v.deep_view(),
            s == old(v).deep_view(),
            v@ == old(v)@,
            i <= v.len(),
            forall|j: int| 0 <= j < i ==> s[j] != x@,
        decreases v.len() - i,
    {
        if v[i] == *x {
            proof {
                lemma_first_pos(s, x@, i as int);
                s.remove_ensures(i as int);
            }
            assert(s[i as int] == x@);
            let ghost old_v = v@;
            v.remove(i);
            assert(v@ == old_v.remove(i as int));
            assert forall|j: int| 0 <= j < v.len() implies v.deep_view()[j] == s.remove(i as int)[j] by {
                if j < i {
                    assert(v@[j] == old_v[j]);
                } else {
                    assert(v@[j] == old_v[j + 1]);
                }
            }
            assert(v.deep_view() =~= s.remove(i as int));
            return true;
        }
        i = i + 1;
    }
    proof {
        lemma_first_pos(s, x@, i as int);
    }
    false
}

fn warn_with(out: &mut Vec<Message>, prefix: &str, pat: &String)
    ensures
        messages_view(final(out)@) == messages_view(old(out)@).push(
            mv(Level::Warn, prefix@ + pat@),
        ),
{
    let mut t = owned(prefix);
    push_str(&mut t, pat.as_str());
    say(out, Level::Warn, t);
}

/// Append each of `pats` that is not already in `cur`, warning about each
/// one skipped.
pub fn add_all(cur: &mut Vec<String>, pats: &Vec<String>, warnings: &mut Vec<Message>)
    ensures
        final(cur).deep_view() == add_patterns(old(cur).deep_view(), pats.deep_view()),
        messages_view(final(warnings)@) == messages_view(old(warnings)@) + add_warnings(
            old(cur).deep_view(),
            pats.deep_view(),
        ),
{
    let ghost c0 = cur.deep_view();
    let ghost w0 = messages_view(warnings@);
    let ghost ps = pats.deep_view();
    let mut i: usize = 0;
    while i < pats.len()
        invariant
            i <= pats.len(),
            ps == pats.deep_view(),
            cur.deep_view() == add_patterns(c0, ps.take(i as int)),
            messages_view(warnings@) == w0 + add_warnings(c0, ps.take(i as int)),
        decreases pats.len() - i,
    {
        assert(ps.take(i + 1).drop_last() == ps.take(i as int));
        assert(ps.take(i + 1).last() == pats[i as int]@);
        let p = &pats[i];
        if contains_str(cur, p) {
            warn_with(warnings, "pattern already present, skipping: ", p);
        } else {
            let ghost before = cur.deep_view();
            cur.push(p.clone());
            assert(cur.deep_view() =~= before.push(p@));
        }
        i = i + 1;
    }
    assert(ps.take(pats.len() as int) == ps);
}

/// Remove the first occurrence of each of `pats` from `cur` (exact match),
/// warning about each one absent.
pub fn remove_all(cur: &mut Vec<String>, pats: &Vec<String>, warnings: &mut Vec<Message>)
    ensures
        final(cur).deep_view() == remove_patterns(old(cur).deep_view(), pats.deep_view()),
        messages_view(final(warnings)@) == messages_view(old(warnings)@) + remove_warnings(
            old(cur).deep_view(),
            pats.deep_view(),
        ),
{
    let ghost c0 = cur.deep_view();
    let ghost w0 = messages_view(warnings@);
    let ghost ps = pats.deep_view();
    let mut i: usize = 0;
    while i < pats.len()
        invariant
            i <= pats.len(),
            ps == pats.deep_view(),
            cur.deep_view() == remove_patterns(c0, ps.take(i as int)),
            messages_view(warnings@) == w0 + remove_warnings(c0, ps.take(i as int)),
        decreases pats.len() - i,
    {
        assert(ps.take(i + 1).drop_last() == ps.take(i as int));
        assert(ps.take(i + 1).last() == pats[i as int]@);
        let p = &pats[i];
        let found = remove_first(cur, p);
        if !found {
            warn_with(warnings, "pattern not present, skipping: ", p);
        }
        i = i + 1;
    }
    assert(ps.take(pats.len() as int) == ps);
}

/// `pats` without repeats, keeping the first occurrence of each.
pub fn deduplicate(pats: &Vec<String>) -> (r: Vec<String>)
    ensures
        r.deep_view() == dedup(pats.deep_view()),
{
    let mut r: Vec<String> = Vec::new();
    let mut ignored: Vec<Message> = Vec::new();
    assert(r.deep_view() =~= Seq::<Seq<char>>::empty());
    add_all(&mut r, pats, &mut ignored);
    r
}

// ---------------------------------------------------------------------------
// Laws of the edits
// ---------------------------------------------------------------------------

/// Adding keeps the existing patterns, in order, in front.
pub proof fn lemma_add_keeps_prefix(cur: Seq<Seq<char>>, pats: Seq<Seq<char>>)
    ensures
        add_patterns(cur, pats).len() >= cur.len(),
        add_patterns(cur, pats).take(cur.len() as int) == cur,
    decreases pats.len(),
{
    if pats.len() > 0 {
        lemma_add_keeps_prefix(cur, pats.drop_last());
        let acc = add_patterns(cur, pats.drop_last());
        assert(acc.push(pats.last()).take(cur.len() as int) =~= acc.take(cur.len() as int));
    }
}

/// After adding, every added pattern is present, and nothing else is new.
pub proof fn lemma_add_contains(cur: Seq<Seq<char>>, pats: Seq<Seq<char>>)
    ensures
        forall|p: Seq<char>| #[trigger] pats.contains(p) ==> add_patterns(cur, pats).contains(p),
        forall|p: Seq<char>|
            #[trigger] add_patterns(cur, pats).contains(p) ==> cur.contains(p) || pats.contains(p),
    decreases pats.len(),
{
    if pats.len() > 0 {
        let prev = pats.drop_last();
        lemma_add_contains(cur, prev);
        let acc = add_patterns(cur, prev);
        let r = add_patterns(cur, pats);
        assert forall|p: Seq<char>| #[trigger] pats.contains(p) implies r.contains(p) by {
            let k = choose|k: int| 0 <= k < pats.len() && pats[k] == p;
            if k < pats.len() - 1 {
                assert(prev[k] == p);
                assert(prev.contains(p));
                assert(acc.contains(p));
                let m = choose|m: int| 0 <= m < acc.len() && acc[m] == p;
                if !acc.contains(pats.last()) {
                    assert(r[m] == p);
                }
            } else {
                if !acc.contains(pats.last()) {
                    assert(r[acc.len() as int] == p);
                }
            }
        }
        assert forall|p: Seq<char>| #[trigger] r.contains(p) implies cur.contains(p) || pats.contains(
            p,
        ) by {
            let m = choose|m: int| 0 <= m < r.len() && r[m] == p;
            if m < acc.len() {
                assert(acc[m] == p);
                assert(acc.contains(p));
                if prev.contains(p) {
                    let k = choose|k: int| 0 <= k < prev.len() && prev[k] == p;
                    assert(pats[k] == p);
                }
            } else {
                assert(pats[pats.len() - 1] == p);
            }
        }
    }
}

/// Adding to a list without repeats gives a list without repeats.
pub proof fn lemma_add_no_duplicates(cur: Seq<Seq<char>>, pats: Seq<Seq<char>>)
    requires
        cur.no_duplicates(),
    ensures
        add_patterns(cur, pats).no_duplicates(),
    decreases pats.len(),
{
    if pats.len() > 0 {
        lemma_add_no_duplicates(cur, pats.drop_last());
        let acc = add_patterns(cur, pats.drop_last());
        if !acc.contains(pats.last()) {
            let r = acc.push(pats.last());
            assert forall|i: int, j: int|
                0 <= i < r.len() && 0 <= j < r.len() && i != j implies r[i] != r[j] by {
                if i == acc.len() {
                    assert(acc[j] != pats.last());
                } else if j == acc.len() {
                    assert(acc[i] != pats.last());
                }
            }
        }
    }
}

/// Adding the same patterns twice is the same as adding them once.
pub proof fn lemma_add_idempotent(cur: Seq<Seq<char>>, pats: Seq<Seq<char>>)
    ensures
        add_patterns(add_patterns(cur, pats), pats) == add_patterns(cur, pats),
{
    let once = add_patterns(cur, pats);
    lemma_add_contains(cur, pats);
    lemma_add_all_present(once, pats);
}

/// Adding patterns that are all present already changes nothing.
pub proof fn lemma_add_all_present(cur: Seq<Seq<char>>, pats: Seq<Seq<char>>)
    requires
        forall|p: Seq<char>| #[trigger] pats.contains(p) ==> cur.contains(p),
    ensures
        add_patterns(cur, pats) == cur,
    decreases pats.len(),
{
    if pats.len() > 0 {
        let prev = pats.drop_last();
        assert forall|p: Seq<char>| #[trigger] prev.contains(p) implies cur.contains(p) by {
            let k = choose|k: int| 0 <= k < prev.len() && prev[k] == p;
            assert(pats[k] == p);
            assert(pats.contains(p));
        }
        lemma_add_all_present(cur, prev);
        assert(pats[pats.len() - 1] == pats.last());
        assert(pats.contains(pats.last()));
    }
}

proof fn lemma_remove_one_subset(s: Seq<Seq<char>>, x: Seq<char>)
    ensures
        forall|y: Seq<char>| #[trigger] remove_one(s, x).contains(y) ==> s.contains(y),
        s.no_duplicates() ==> remove_one(s, x).no_duplicates(),
        s.no_duplicates() ==> !remove_one(s, x).contains(x),
{
    lemma_first_pos_contains(s, x);
    match first_pos(s, x) {
        Some(i) => {
            let r = s.remove(i as int);
            s.remove_ensures(i as int);
            assert forall|y: Seq<char>| #[trigger] r.contains(y) implies s.contains(y) by {
                let m = choose|m: int| 0 <= m < r.len() && r[m] == y;
                if m < i {
                    assert(s[m] == y);
                } else {
                    assert(s[m + 1] == y);
                }
            }
            if s.no_duplicates() {
                assert forall|a: int, b: int|
                    0 <= a < r.len() && 0 <= b < r.len() && a != b implies r[a] != r[b] by {
                    let a2 = if a < i {
                        a
                    } else {
                        a + 1
                    };
                    let b2 = if b < i {
                        b
                    } else {
                        b + 1
                    };
                    assert(r[a] == s[a2]);
                    assert(r[b] == s[b2]);
                }
                if r.contains(x) {
                    let m = choose|m: int| 0 <= m < r.len() && r[m] == x;
                    let m2 = if m < i {
                        m
                    } else {
                        m + 1
                    };
                    assert(s[m2] == x);
                    assert(s[i as int] == x);
                }
            }
        },
        None => {},
    }
}

/// Removing from a list without repeats leaves none of the removed patterns,
/// and no pattern that was not there before.
pub proof fn lemma_remove_absent(cur: Seq<Seq<char>>, pats: Seq<Seq<char>>)
    requires
        cur.no_duplicates(),
    ensures
        forall|p: Seq<char>| #[trigger] pats.contains(p) ==> !remove_patterns(cur, pats).contains(p),
        forall|p: Seq<char>| #[trigger] remove_patterns(cur, pats).contains(p) ==> cur.contains(p),
        remove_patterns(cur, pats).no_duplicates(),
    decreases pats.len(),
{
    if pats.len() > 0 {
        let prev = pats.drop_last();
        lemma_remove_absent(cur, prev);
        let acc = remove_patterns(cur, prev);
        lemma_remove_one_subset(acc, pats.last());
        let r = remove_patterns(cur, pats);
        assert forall|p: Seq<char>| #[trigger] pats.contains(p) implies !r.contains(p) by {
            let k = choose|k: int| 0 <= k < pats.len() && pats[k] == p;
            if k < pats.len() - 1 {
                assert(prev[k] == p);
                assert(prev.contains(p));
            }
        }
    }
}

/// Adding one new pattern and removing it again restores the list.
pub proof fn lemma_add_then_remove(cur: Seq<Seq<char>>, p: Seq<char>)
    requires
        !cur.contains(p),
    ensures
        remove_patterns(add_patterns(cur, seq![p]), seq![p]) == cur,
{
    assert(seq![p].drop_last() =~= Seq::<Seq<char>>::empty());
    assert(seq![p].last() == p);
    assert(add_patterns(cur, Seq::<Seq<char>>::empty()) == cur);
    assert(remove_patterns(cur.push(p), Seq::<Seq<char>>::empty()) == cur.push(p));
    let added = add_patterns(cur, seq![p]);
    assert(added == cur.push(p));
    assert forall|j: int| 0 <= j < cur.len() implies added[j] != p by {
        assert(cur[j] != p);
    }
    lemma_first_pos(added, p, cur.len() as int);
    assert(added.remove(cur.len() as int) =~= cur);
}

/// Removing one pattern deletes exactly its first occurrence: when `s`
/// holds `x`, the result is one shorter, and every other pattern stays in
/// its place relative to the others (those before the removed one keep
/// their index, those after it move up by one); when `s` lacks `x`, nothing
/// changes.
pub proof fn lemma_remove_one_shape(s: Seq<Seq<char>>, x: Seq<char>)
    ensures
        !s.contains(x) ==> remove_one(s, x) == s,
        s.contains(x) ==> exists|i: int|
            #![trigger s[i]]
            0 <= i < s.len() && s[i] == x && (forall|j: int| 0 <= j < i ==> s[j] != x)
                && remove_one(s, x).len() == s.len() - 1 && (forall|j: int|
                0 <= j < i ==> #[trigger] remove_one(s, x)[j] == s[j]) && (forall|j: int|
                i <= j < s.len() - 1 ==> #[trigger] remove_one(s, x)[j] == s[j + 1]),
{
    lemma_first_pos_contains(s, x);
    match first_pos(s, x) {
        Some(k) => {
            let i = k as int;
            assert forall|j: int| 0 <= j < i implies s[j] != x by {
                if s[j] == x {
                    lemma_first_pos_before(s, x, j);
                }
            }
            assert(s[i] == x);
        },
        None => {},
    }
}

proof fn lemma_first_pos_before(s: Seq<Seq<char>>, x: Seq<char>, j: int)
    requires
        0 <= j < s.len(),
        s[j] == x,
    ensures
        first_pos(s, x) matches Some(k) && k <= j,
    decreases j,
{
    if j > 0 && s[0] != x {
        lemma_first_pos_before(s.drop_first(), x, j - 1);
    }
}

/// Removing patterns deletes exactly the named values and nothing else: as
/// a multiset, the result is the current list less one occurrence of each
/// named pattern (a pattern named as often as it occurs, or more, is gone;
/// one not named keeps every occurrence).
pub proof fn lemma_remove_exact(cur: Seq<Seq<char>>, pats: Seq<Seq<char>>)
    ensures
        remove_patterns(cur, pats).to_multiset() =~= cur.to_multiset().difference_with(
            pats.to_multiset(),
        ),
    decreases pats.len(),
{
    broadcast use vstd::multiset::group_multiset_axioms, vstd::multiset::group_multiset_properties;
    broadcast use vstd::seq_lib::group_to_multiset_ensures;

    if pats.len() == 0 {
        assert(pats.to_multiset() =~= vstd::multiset::Multiset::empty());
        assert forall|y: Seq<char>| #[trigger] cur.to_multiset().difference_with(pats.to_multiset()).count(y)
            == cur.to_multiset().count(y) by {}
    } else {
        let prev = pats.drop_last();
        let p = pats.last();
        lemma_remove_exact(cur, prev);
        let r = remove_patterns(cur, prev);
        assert(prev.push(p) =~= pats);
        vstd::seq_lib::to_multiset_build(prev, p);
        lemma_first_pos_contains(r, p);
        match first_pos(r, p) {
            Some(k) => {
                vstd::seq_lib::to_multiset_remove(r, k as int);
                assert(r.to_multiset().count(p) > 0);
            },
            None => {
                assert(r.to_multiset().count(p) == 0);
            },
        }
        assert forall|y: Seq<char>| #[trigger] remove_patterns(cur, pats).to_multiset().count(y)
            == cur.to_multiset().difference_with(pats.to_multiset()).count(y) by {
            assert(r.to_multiset().count(y) == cur.to_multiset().difference_with(prev.to_multiset()).count(y));
        }
    }
}

/// Every pattern that is not named for removal stays in the list.
pub proof fn lemma_remove_keeps_others(cur: Seq<Seq<char>>, pats: Seq<Seq<char>>, y: Seq<char>)
    requires
        cur.contains(y),
        !pats.contains(y),
    ensures
        remove_patterns(cur, pats).contains(y),
{
    broadcast use vstd::multiset::group_multiset_axioms, vstd::multiset::group_multiset_properties;
    broadcast use vstd::seq_lib::group_to_multiset_ensures;

    lemma_remove_exact(cur, pats);
    assert(cur.to_multiset().count(y) > 0);
    assert(pats.to_multiset().count(y) == 0);
    assert(remove_patterns(cur, pats).to_multiset().count(y) > 0);
}

/// A replaced list holds each given pattern once, and nothing else.
pub proof fn lemma_dedup(pats: Seq<Seq<char>>)
    ensures
        dedup(pats).no_duplicates(),
        forall|p: Seq<char>| #[trigger] dedup(pats).contains(p) <==> pats.contains(p),
{
    let e = Seq::<Seq<char>>::empty();
    lemma_add_no_duplicates(e, pats);
    lemma_add_contains(e, pats);
    assert forall|p: Seq<char>| #[trigger] dedup(pats).contains(p) <==> pats.contains(p) by {
        if dedup(pats).contains(p) {
            assert(!e.contains(p));
        }
    }
}

// ---------------------------------------------------------------------------
// Pattern input
// ---------------------------------------------------------------------------

/// Whether a trimmed pattern-file line carries a pattern: not blank and not
/// a `#` comment.
pub open spec fn is_pattern_line(t: Seq<char>) -> bool {
    t.len() > 0 && t[0] != '#'
}

/// The patterns of a newline-delimited pattern list: each line trimmed,
/// blank lines and `#` comments skipped.
pub open spec fn pattern_lines(ls: Seq<Seq<char>>) -> Seq<Seq<char>>
    decreases ls.len(),
{
    if ls.len() == 0 {
        Seq::empty()
    } else {
        let prev = pattern_lines(ls.drop_last());
        let t = text::trim(ls.last());
        if is_pattern_line(t) {
            prev.push(t)
        } else {
            prev
        }
    }
}

/// The patterns in a pattern file or on stdin (`--from` / `--stdin`).
pub fn parse_pattern_list(body: &str) -> (r: Vec<String>)
    ensures
        r.deep_view() == pattern_lines(text::lines(body@)),
{
    let ls = text::lines_of(body);
    let ghost lv = ls.deep_view();
    let mut r: Vec<String> = Vec::new();
    let mut i: usize = 0;
    while i < ls.len()
        invariant
            i <= ls.len(),
            lv == ls.deep_view(),
            r.deep_view() == pattern_lines(lv.take(i as int)),
        decreases ls.len() - i,
    {
        assert(lv.take(i + 1).drop_last() == lv.take(i as int));
        assert(lv.take(i + 1).last() == ls[i as int]@);
        let t = text::str_trim(ls[i].as_str());
        let tc = text::chars_of(t.as_str());
        if tc.len() > 0 && tc[0] != '#' {
            let ghost before = r.deep_view();
            r.push(t);
            assert(r.deep_view() =~= before.push(tc@));
        }
        i = i + 1;
    }
    assert(lv.take(ls.len() as int) == lv);
    r
}

// ---------------------------------------------------------------------------
// The command
// ---------------------------------------------------------------------------

/// What `picky sparse` does to the pattern list.
#[derive(Debug)]
pub enum Action {
    /// Show the current patterns.
    List,
    /// Add patterns that are not present yet.
    Add(Vec<String>),
    /// Remove patterns by exact value.
    Remove(Vec<String>),
    /// Replace the whole list (repeats dropped).
    SetPatterns(Vec<String>),
    /// Drop every pattern (a full checkout).
    Clear,
}

/// Why `picky sparse` refused.
#[derive(Debug)]
pub enum SparseError {
    /// The submodule could not be determined.
    Lookup(ConfigError),
    /// A pattern-taking action got no pattern.
    NoPatterns,
}

impl SparseError {
    /// The message shown to the user, as text.
    pub open spec fn message_of(&self) -> Seq<char> {
        match self {
            SparseError::Lookup(e) => e.message_of(),
            SparseError::NoPatterns => "no patterns given (pass them as arguments, --from <file> or --stdin; use `picky sparse clear` to empty the list)"@,
        }
    }

    /// The message shown to the user.
    pub fn message(&self) -> (m: String)
        ensures
            m@ == self.message_of(),
    {
        match self {
            SparseError::Lookup(e) => e.message(),
            SparseError::NoPatterns => owned(
                "no patterns given (pass them as arguments, --from <file> or --stdin; use `picky sparse clear` to empty the list)",
            ),
        }
    }
}

/// The effect of `picky sparse`.
#[derive(Debug)]
pub struct SparsePlan {
    /// Messages to show first: the listing, skipped patterns, or that
    /// nothing changed.
    pub before: Vec<Message>,
    /// The `.gitmodules` calls that record the new list (none when the list
    /// is unchanged); `.gitmodules` is staged after them.
    pub calls: Vec<ConfigCall>,
    /// Messages to show once the calls ran.
    pub after: Vec<Message>,
    /// The submodule path to re-initialize afterwards, if any.
    pub reinit: Option<String>,
}

/// The listing of one submodule's patterns.
pub open spec fn listing(sm: config::SubmoduleView) -> Seq<MessageView> {
    if sm.sparse.len() == 0 {
        seq![mv(Level::Plain, sm.path + ": no sparse patterns (full checkout)"@)]
    } else {
        seq![mv(Level::Heading, sm.path + " sparse patterns:"@)] + Seq::new(
            sm.sparse.len(),
            |i: int| mv(Level::Plain, "  "@ + sm.sparse[i]),
        )
    }
}

/// The listings of several submodules, one after the other.
pub open spec fn listings(sms: Seq<config::SubmoduleView>) -> Seq<MessageView>
    decreases sms.len(),
{
    if sms.len() == 0 {
        Seq::empty()
    } else {
        listings(sms.drop_last()) + listing(sms.last())
    }
}

/// The new pattern list and the skip warnings of a mutating action.
pub open spec fn edit_of(cur: Seq<Seq<char>>, action: ActionView) -> (Seq<Seq<char>>, Seq<MessageView>) {
    match action {
        ActionView::Add(p) => (add_patterns(cur, p), add_warnings(cur, p)),
        ActionView::Remove(p) => (remove_patterns(cur, p), remove_warnings(cur, p)),
        ActionView::SetPatterns(p) => (dedup(p), Seq::empty()),
        _ => (Seq::empty(), Seq::empty()),
    }
}

pub enum ActionView {
    List,
    Add(Seq<Seq<char>>),
    Remove(Seq<Seq<char>>),
    SetPatterns(Seq<Seq<char>>),
    Clear,
}

impl View for Action {
    type V = ActionView;

    open spec fn view(&self) -> ActionView {
        match self {
            Action::List => ActionView::List,
            Action::Add(p) => ActionView::Add(p.deep_view()),
            Action::Remove(p) => ActionView::Remove(p.deep_view()),
            Action::SetPatterns(p) => ActionView::SetPatterns(p.deep_view()),
            Action::Clear => ActionView::Clear,
        }
    }
}

/// Whether the action takes patterns but got none.
pub open spec fn lacks_patterns(a: ActionView) -> bool {
    match a {
        ActionView::Add(p) => p.len() == 0,
        ActionView::Remove(p) => p.len() == 0,
        ActionView::SetPatterns(p) => p.len() == 0,
        _ => false,
    }
}

/// The messages once a changed list of `n` patterns is recorded.
pub open spec fn changed_messages(path: Seq<char>, n: nat, no_reinit: bool) -> Seq<MessageView> {
    let done = mv(
        Level::Success,
        path + ": now "@ + dec(n) + " sparse pattern(s) configured (.gitmodules staged)"@,
    );
    if no_reinit {
        seq![done, mv(Level::Plain, "  run `picky init` to reconcile the checkout"@)]
    } else {
        seq![done]
    }
}

/// The submodule a mutating action edits: the one `path` names, else the
/// lone one.
pub open spec fn target_of(cfg: Seq<(Seq<char>, Seq<char>)>, path: Option<Seq<char>>) -> Option<config::SubmoduleView> {
    match path {
        Some(p) => find_of(cfg, p),
        None => if names_of(cfg).len() == 1 {
            Some(load_from(lookup_of(cfg), names_of(cfg)[0]))
        } else {
            None
        },
    }
}

/// What `picky sparse` decides for the submodule `sm`.
pub open spec fn outcome(
    r: Result<SparsePlan, SparseError>,
    sm: config::SubmoduleView,
    action: ActionView,
    no_reinit: bool,
) -> bool {
    if action is List {
        r matches Ok(plan) && messages_view(plan.before@) == listing(sm) && plan.calls@.len() == 0
            && plan.after@.len() == 0 && plan.reinit is None
    } else if lacks_patterns(action) {
        r matches Err(SparseError::NoPatterns)
    } else {
        let new_list = if action is Clear {
            Seq::<Seq<char>>::empty()
        } else {
            edit_of(sm.sparse, action).0
        };
        let warnings = edit_of(sm.sparse, action).1;
        r matches Ok(plan) && if new_list == sm.sparse {
            messages_view(plan.before@) == warnings.push(
                mv(Level::Plain, sm.path + ": sparse patterns unchanged"@),
            ) && plan.calls@.len() == 0 && plan.after@.len() == 0 && plan.reinit is None
        } else {
            &&& messages_view(plan.before@) == warnings
            &&& calls_view(plan.calls@) == sparse_calls(sm.name, new_list)
            &&& messages_view(plan.after@) == changed_messages(sm.path, new_list.len(), no_reinit)
            &&& (no_reinit ==> plan.reinit is None)
            &&& (!no_reinit ==> (plan.reinit matches Some(p) && p@ == sm.path))
        }
    }
}

fn submodule_listing(sm: &Submodule, out: &mut Vec<Message>)
    ensures
        messages_view(final(out)@) == messages_view(old(out)@) + listing(sm@),
{
    let ghost m0 = messages_view(out@);
    if sm.sparse.len() == 0 {
        let mut t = sm.path.clone();
        push_str(&mut t, ": no sparse patterns (full checkout)");
        say(out, Level::Plain, t);
        assert(messages_view(out@) =~= m0 + listing(sm@));
    } else {
        let mut t = sm.path.clone();
        push_str(&mut t, " sparse patterns:");
        say(out, Level::Heading, t);
        let ghost head = seq![mv(Level::Heading, sm.path@ + " sparse patterns:"@)];
        let ghost sv = sm.sparse.deep_view();
        let mut i: usize = 0;
        while i < sm.sparse.len()
            invariant
                i <= sm.sparse.len(),
                sv == sm.sparse.deep_view(),
                messages_view(out@) == m0 + head + Seq::new(
                    i as nat,
                    |j: int| mv(Level::Plain, "  "@ + sv[j]),
                ),
            decreases sm.sparse.len() - i,
        {
            let mut t = owned("  ");
            push_str(&mut t, sm.sparse[i].as_str());
            say(out, Level::Plain, t);
            assert(m0 + head + Seq::new((i + 1) as nat, |j: int| mv(Level::Plain, "  "@ + sv[j]))
                =~= (m0 + head + Seq::new(i as nat, |j: int| mv(Level::Plain, "  "@ + sv[j]))).push(
                mv(Level::Plain, "  "@ + sv[i as int]),
            ));
            i = i + 1;
        }
        assert(messages_view(out@) =~= m0 + listing(sm@));
    }
}

/// Decide what `picky sparse` does. `list` with no path reports every
/// declared submodule; the mutating actions need `path` or a lone submodule,
/// and record the new list only when it differs from the current one.
pub fn run(cfg: &GitConfig, path: Option<String>, action: Action, no_reinit: bool) -> (r: Result<
    SparsePlan,
    SparseError,
>)
    ensures
        match path {
            None => if action@ is List {
                r matches Ok(plan) && messages_view(plan.before@) == listings(
                    Seq::new(
                        names_of(cfg@).len(),
                        |i: int| load_from(lookup_of(cfg@), names_of(cfg@)[i]),
                    ),
                ) && plan.calls@.len() == 0 && plan.after@.len() == 0 && plan.reinit is None
            } else if names_of(cfg@).len() == 0 {
                r matches Err(SparseError::Lookup(ConfigError::NoneDeclared))
            } else if names_of(cfg@).len() > 1 {
                r matches Err(SparseError::Lookup(ConfigError::Multiple))
            } else {
                outcome(r, load_from(lookup_of(cfg@), names_of(cfg@)[0]), action@, no_reinit)
            },
            Some(p) => match find_of(cfg@, p@) {
                None => r matches Err(SparseError::Lookup(ConfigError::NoMatch(n))) && n@ == p@,
                Some(sm) => outcome(r, sm, action@, no_reinit),
            },
        },
{
    let mut before: Vec<Message> = Vec::new();
    if matches!(action, Action::List) && path.is_none() {
        let all = config::load_all(cfg);
        let ghost sms = Seq::new(names_of(cfg@).len(), |i: int| load_from(lookup_of(cfg@), names_of(cfg@)[i]));
        let mut i: usize = 0;
        while i < all.len()
            invariant
                i <= all.len(),
                all.len() == sms.len(),
                forall|j: int| 0 <= j < all.len() ==> #[trigger] all[j]@ == sms[j],
                messages_view(before@) == listings(sms.take(i as int)),
            decreases all.len() - i,
        {
            assert(sms.take(i + 1).drop_last() == sms.take(i as int));
            assert(sms.take(i + 1).last() == all[i as int]@);
            submodule_listing(&all[i], &mut before);
            i = i + 1;
        }
        assert(sms.take(all.len() as int) == sms);
        return Ok(SparsePlan { before, calls: Vec::new(), after: Vec::new(), reinit: None });
    }
    let sm = match &path {
        Some(p) => match config::find(cfg, p.as_str()) {
            Ok(sm) => sm,
            Err(e) => {
                return Err(SparseError::Lookup(e));
            },
        },
        None => match config::only(cfg) {
            Ok(sm) => sm,
            Err(e) => {
                return Err(SparseError::Lookup(e));
            },
        },
    };
    let ghost smv = sm@;
    let mut patterns = config::strings_clone(&sm.sparse);
    match &action {
        Action::List => {
            submodule_listing(&sm, &mut before);
            assert(messages_view(before@) =~= listing(smv));
            return Ok(SparsePlan { before, calls: Vec::new(), after: Vec::new(), reinit: None });
        },
        Action::Add(p) => {
            if p.len() == 0 {
                return Err(SparseError::NoPatterns);
            }
            add_all(&mut patterns, p, &mut before);
        },
        Action::Remove(p) => {
            if p.len() == 0 {
                return Err(SparseError::NoPatterns);
            }
            remove_all(&mut patterns, p, &mut before);
        },
        Action::SetPatterns(p) => {
            if p.len() == 0 {
                return Err(SparseError::NoPatterns);
            }
            patterns = deduplicate(p);
        },
        Action::Clear => {
            patterns = Vec::new();
            assert(patterns.deep_view() =~= Seq::<Seq<char>>::empty());
        },
    }
    assert(patterns.deep_view() == (if action@ is Clear {
        Seq::<Seq<char>>::empty()
    } else {
        edit_of(smv.sparse, action@).0
    }));
    assert(messages_view(before@) =~= edit_of(smv.sparse, action@).1);
    if same_list(&patterns, &sm.sparse) {
        let mut t = sm.path.clone();
        push_str(&mut t, ": sparse patterns unchanged");
        say(&mut before, Level::Plain, t);
        return Ok(SparsePlan { before, calls: Vec::new(), after: Vec::new(), reinit: None });
    }
    let calls = config::set_sparse(&sm.name, &patterns);
    let mut after: Vec<Message> = Vec::new();
    let mut t = sm.path.clone();
    push_str(&mut t, ": now ");
    let ns = text::usize_to_string(patterns.len());
    push_str(&mut t, ns.as_str());
    push_str(&mut t, " sparse pattern(s) configured (.gitmodules staged)");
    say(&mut after, Level::Success, t);
    let reinit = if no_reinit {
        say(&mut after, Level::Plain, owned("  run `picky init` to reconcile the checkout"));
        None
    } else {
        Some(sm.path.clone())
    };
    assert(messages_view(after@) =~= changed_messages(smv.path, patterns.deep_view().len(), no_reinit));
    Ok(SparsePlan { before, calls, after, reinit })
}

/// Whether two pattern lists are equal.
fn same_list(a: &Vec<String>, b: &Vec<String>) -> (r: bool)
    ensures
        r == (a.deep_view() == b.deep_view()),
{
    if a.len() != b.len() {
        assert(a.deep_view().len() != b.deep_view().len());
        return false;
    }
    let mut i: usize = 0;
    while i < a.len()
        invariant
            a.len() == b.len(),
            i <= a.len(),
            forall|j: int| 0 <= j < i ==> a.deep_view()[j] == b.deep_view()[j],
        decreases a.len() - i,
    {
        if a[i] != b[i] {
            assert(a.deep_view()[i as int] != b.deep_view()[i as int]);
            return false;
        }
        i = i + 1;
    }
    assert(a.deep_view() =~= b.deep_view());
    true
}

} // verus!
