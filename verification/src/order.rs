//! Lexical order on strings (by Unicode scalar value, which is the order
//! of their UTF-8 bytes), and sorting a list of strings into it.

use vstd::prelude::*;

use crate::text::chars_of;

verus! {

/// `a` sorts strictly before `b`.
pub open spec fn lex_lt(a: Seq<char>, b: Seq<char>) -> bool
    decreases a.len(),
{
    if a.len() == 0 {
        b.len() > 0
    } else if b.len() == 0 {
        false
    } else if a[0] != b[0] {
        a[0] < b[0]
    } else {
        lex_lt(a.drop_first(), b.drop_first())
    }
}

pub proof fn lemma_lex_irreflexive(a: Seq<char>)
    ensures
        !lex_lt(a, a),
    decreases a.len(),
{
    if a.len() > 0 {
        lemma_lex_irreflexive(a.drop_first());
    }
}

pub proof fn lemma_lex_total(a: Seq<char>, b: Seq<char>)
    ensures
        lex_lt(a, b) || lex_lt(b, a) || a == b,
        !(lex_lt(a, b) && lex_lt(b, a)),
    decreases a.len(),
{
    if a.len() > 0 && b.len() > 0 {
        if a[0] == b[0] {
            lemma_lex_total(a.drop_first(), b.drop_first());
            if a.drop_first() == b.drop_first() {
                assert(a =~= seq![a[0]] + a.drop_first());
                assert(b =~= seq![b[0]] + b.drop_first());
            }
        } else {
        }
    } else if a.len() == 0 && b.len() == 0 {
        assert(a =~= b);
    }
}

pub proof fn lemma_lex_transitive(a: Seq<char>, b: Seq<char>, c: Seq<char>)
    requires
        lex_lt(a, b),
        lex_lt(b, c),
    ensures
        lex_lt(a, c),
    decreases a.len(),
{
    if a.len() > 0 && b.len() > 0 && c.len() > 0 {
        if a[0] == b[0] && b[0] == c[0] {
            lemma_lex_transitive(a.drop_first(), b.drop_first(), c.drop_first());
        }
    }
}

/// `s` is strictly increasing (so also free of repeats).
pub open spec fn strictly_sorted(s: Seq<Seq<char>>) -> bool {
    forall|i: int, j: int| 0 <= i < j < s.len() ==> lex_lt(#[trigger] s[i], #[trigger] s[j])
}

/// Whether `a` sorts strictly before `b`.
pub fn less(a: &Vec<char>, b: &Vec<char>) -> (r: bool)
    ensures
        r == lex_lt(a@, b@),
{
    let mut i: usize = 0;
    assert(a@.skip(0) == a@);
    assert(b@.skip(0) == b@);
    while i < a.len() && i < b.len()
        invariant
            i <= a.len(),
            i <= b.len(),
            lex_lt(a@, b@) == lex_lt(a@.skip(i as int), b@.skip(i as int)),
        decreases a.len() - i,
    {
        let ghost x = a@.skip(i as int);
        let ghost y = b@.skip(i as int);
        assert(x[0] == a@[i as int]);
        assert(y[0] == b@[i as int]);
        if a[i] != b[i] {
            return a[i] < b[i];
        }
        assert(x.drop_first() == a@.skip(i + 1));
        assert(y.drop_first() == b@.skip(i + 1));
        i = i + 1;
    }
    let ghost x = a@.skip(i as int);
    let ghost y = b@.skip(i as int);
    assert(x.len() == 0 || y.len() == 0);
    i == a.len() && i < b.len()
}

/// The strings of `v`, sorted lexically, each once.
pub fn sorted_unique(v: &Vec<String>) -> (r: Vec<String>)
    ensures
        strictly_sorted(r.deep_view()),
        forall|x: Seq<char>| #[trigger] r.deep_view().contains(x) <==> v.deep_view().contains(x),
{
    let mut r: Vec<String> = Vec::new();
    let mut rc: Vec<Vec<char>> = Vec::new();
    let mut i: usize = 0;
    while i < v.len()
        invariant
            i <= v.len(),
            r.len() == rc.len(),
            forall|k: int| 0 <= k < r.len() ==> #[trigger] rc[k]@ == r[k]@,
            strictly_sorted(r.deep_view()),
            forall|x: Seq<char>|
                #[trigger] r.deep_view().contains(x) <==> v.deep_view().take(i as int).contains(x),
        decreases v.len() - i,
    {
        let s = &v[i];
        let sc = chars_of(s.as_str());
        let ghost rv = r.deep_view();
        // find the first position whose string is not less than s
        let mut j: usize = 0;
        while j < rc.len() && less(&rc[j], &sc)
            invariant
                j <= rc.len(),
                r.len() == rc.len(),
                rv == r.deep_view(),
                forall|k: int| 0 <= k < r.len() ==> #[trigger] rc[k]@ == r[k]@,
                forall|k: int| 0 <= k < j ==> lex_lt(#[trigger] rv[k], sc@),
            decreases rc.len() - j,
        {
            j = j + 1;
        }
        let ghost old_t = v.deep_view().take(i as int);
        let ghost new_t = v.deep_view().take(i + 1);
        assert(new_t == old_t.push(sc@));
        if j < rc.len() && !less(&sc, &rc[j]) {
            // rv[j] == s: already present
            proof {
                lemma_lex_total(rv[j as int], sc@);
            }
            assert(rv[j as int] == sc@);
            assert forall|x: Seq<char>| new_t.contains(x) implies #[trigger] rv.contains(x) by {
                if x == sc@ {
                    assert(rv[j as int] == x);
                } else {
                    let k = choose|k: int| 0 <= k < new_t.len() && #[trigger] new_t[k] == x;
                    assert(old_t[k] == x);
                    assert(old_t.contains(x));
                }
            }
            assert forall|x: Seq<char>| #[trigger] rv.contains(x) implies new_t.contains(x) by {
                assert(old_t.contains(x));
                let k = choose|k: int| 0 <= k < old_t.len() && #[trigger] old_t[k] == x;
                assert(new_t[k] == x);
            }
        } else {
            // every later string sorts after s
            proof {
                if j < rc.len() {
                    assert forall|k: int| j <= k < rv.len() implies lex_lt(sc@, #[trigger] rv[k]) by {
                        if k > j {
                            lemma_lex_transitive(sc@, rv[j as int], rv[k]);
                        }
                    }
                }
            }
            r.insert(j, s.clone());
            rc.insert(j, sc);
            let ghost nv = r.deep_view();
            assert(nv =~= rv.insert(j as int, sc@));
            assert forall|a: int, b: int| 0 <= a < b < nv.len() implies lex_lt(
                #[trigger] nv[a],
                #[trigger] nv[b],
            ) by {
                if b < j {
                } else if a < j && b == j {
                } else if a < j && b > j {
                    assert(nv[b] == rv[b - 1]);
                } else if a == j {
                    assert(nv[b] == rv[b - 1]);
                } else {
                    assert(nv[a] == rv[a - 1]);
                    assert(nv[b] == rv[b - 1]);
                }
            }
            assert forall|x: Seq<char>| new_t.contains(x) implies #[trigger] nv.contains(x) by {
                if x == sc@ {
                    assert(nv[j as int] == x);
                } else {
                    let k0 = choose|k: int| 0 <= k < new_t.len() && #[trigger] new_t[k] == x;
                    assert(old_t[k0] == x);
                    assert(old_t.contains(x));
                    assert(rv.contains(x));
                    let m = choose|m: int| 0 <= m < rv.len() && #[trigger] rv[m] == x;
                    if m < j {
                        assert(nv[m] == x);
                    } else {
                        assert(nv[m + 1] == x);
                    }
                }
            }
            assert forall|x: Seq<char>| #[trigger] nv.contains(x) implies new_t.contains(x) by {
                let m = choose|m: int| 0 <= m < nv.len() && #[trigger] nv[m] == x;
                if m == j {
                    assert(new_t[i as int] == x);
                } else {
                    let m2 = if m < j {
                        m
                    } else {
                        m - 1
                    };
                    assert(rv[m2] == x);
                    assert(rv.contains(x));
                    assert(old_t.contains(x));
                    let k = choose|k: int| 0 <= k < old_t.len() && #[trigger] old_t[k] == x;
                    assert(new_t[k] == x);
                }
            }
        }
        i = i + 1;
    }
    assert(v.deep_view().take(v.len() as int) == v.deep_view());
    r
}

} // verus!
