//! Character-level text handling shared by the parsers: splitting into
//! lines and fields, trimming, prefix tests, and building `String`s.

use vstd::prelude::*;

verus! {

// ---------------------------------------------------------------------------
// Specification
// ---------------------------------------------------------------------------

/// The Unicode `White_Space` property, which `char::is_whitespace` tests.
pub open spec fn is_ws(c: char) -> bool {
    let u = c as u32;
    ||| 0x09 <= u <= 0x0d
    ||| u == 0x20
    ||| u == 0x85
    ||| u == 0xa0
    ||| u == 0x1680
    ||| 0x2000 <= u <= 0x200a
    ||| u == 0x2028
    ||| u == 0x2029
    ||| u == 0x202f
    ||| u == 0x205f
    ||| u == 0x3000
}

/// `s` with trailing whitespace removed (`str::trim_end`).
pub open spec fn trim_end(s: Seq<char>) -> Seq<char>
    decreases s.len(),
{
    if s.len() > 0 && is_ws(s.last()) {
        trim_end(s.drop_last())
    } else {
        s
    }
}

/// `s` with leading whitespace removed (`str::trim_start`).
pub open spec fn trim_start(s: Seq<char>) -> Seq<char>
    decreases s.len(),
{
    if s.len() > 0 && is_ws(s[0]) {
        trim_start(s.drop_first())
    } else {
        s
    }
}

/// `s` with whitespace removed at both ends (`str::trim`).
pub open spec fn trim(s: Seq<char>) -> Seq<char> {
    trim_start(trim_end(s))
}

/// The pieces of `s` between occurrences of `c` (`str::split`): never
/// empty, and a separator at either end yields an empty piece there.
pub open spec fn split(s: Seq<char>, c: char) -> Seq<Seq<char>>
    decreases s.len(),
{
    if s.len() == 0 {
        seq![Seq::<char>::empty()]
    } else {
        let p = split(s.drop_last(), c);
        if s.last() == c {
            p.push(Seq::<char>::empty())
        } else {
            p.update(p.len() - 1, p.last().push(s.last()))
        }
    }
}

/// Splitting at a separator that joins two texts splits each of them.
pub proof fn lemma_split_join(a: Seq<char>, b: Seq<char>, c: char)
    ensures
        split(a.push(c) + b, c) == split(a, c) + split(b, c),
    decreases b.len(),
{
    let s = a.push(c) + b;
    if b.len() == 0 {
        assert(s =~= a.push(c));
        assert(s.drop_last() =~= a);
        assert(split(a, c) + split(b, c) =~= split(a, c).push(Seq::<char>::empty()));
    } else {
        lemma_split_join(a, b.drop_last(), c);
        lemma_split_nonempty(b.drop_last(), c);
        lemma_split_nonempty(a, c);
        assert(s.drop_last() =~= a.push(c) + b.drop_last());
        assert(s.last() == b.last());
        let pa = split(a, c);
        let pb = split(b.drop_last(), c);
        let p = pa + pb;
        if b.last() == c {
            assert(p.push(Seq::<char>::empty()) =~= pa + pb.push(Seq::<char>::empty()));
        } else {
            assert(p.update(p.len() - 1, p.last().push(b.last())) =~= pa + pb.update(
                pb.len() - 1,
                pb.last().push(b.last()),
            ));
        }
    }
}

/// Text without the separator is a single piece.
pub proof fn lemma_split_single(s: Seq<char>, c: char)
    requires
        !s.contains(c),
    ensures
        split(s, c) == seq![s],
    decreases s.len(),
{
    if s.len() > 0 {
        assert(!s.drop_last().contains(c)) by {
            if s.drop_last().contains(c) {
                let j = choose|j: int| 0 <= j < s.drop_last().len() && s.drop_last()[j] == c;
                assert(s[j] == c);
            }
        }
        lemma_split_single(s.drop_last(), c);
        assert(s.last() != c) by {
            assert(s[s.len() - 1] == s.last());
        }
        assert(s.drop_last().push(s.last()) =~= s);
        assert(seq![s.drop_last()].update(0, s) =~= seq![s]);
    } else {
        assert(s =~= Seq::<char>::empty());
    }
}

/// A line that was ended by `'\n'` loses a `'\r'` before it.
pub open spec fn strip_cr(l: Seq<char>) -> Seq<char> {
    if l.len() > 0 && l.last() == '\r' {
        l.drop_last()
    } else {
        l
    }
}

/// The lines of `s` (`str::lines`): split at `'\n'`, a `"\r\n"` ending
/// counts as one, and a final line ending adds no empty line.
pub open spec fn lines(s: Seq<char>) -> Seq<Seq<char>> {
    let p = split(s, '\n');
    let ended = Seq::new((p.len() - 1) as nat, |i: int| strip_cr(p[i]));
    if p.last().len() == 0 {
        ended
    } else {
        ended.push(p.last())
    }
}

/// Whether `s` begins with `p`.
pub open spec fn starts_with(s: Seq<char>, p: Seq<char>) -> bool {
    p.len() <= s.len() && s.subrange(0, p.len() as int) == p
}

/// Whether `s` ends with `p`.
pub open spec fn ends_with(s: Seq<char>, p: Seq<char>) -> bool {
    p.len() <= s.len() && s.subrange(s.len() - p.len(), s.len() as int) == p
}

/// `s` without the prefix `p`, when it has it (`str::strip_prefix`).
pub open spec fn strip_prefix(s: Seq<char>, p: Seq<char>) -> Option<Seq<char>> {
    if starts_with(s, p) {
        Some(s.subrange(p.len() as int, s.len() as int))
    } else {
        None
    }
}

/// `s` without the suffix `p`, when it has it (`str::strip_suffix`).
pub open spec fn strip_suffix(s: Seq<char>, p: Seq<char>) -> Option<Seq<char>> {
    if ends_with(s, p) {
        Some(s.subrange(0, s.len() - p.len()))
    } else {
        None
    }
}

/// The first `n` characters of `s`, or all of it when shorter
/// (`s.get(..n).unwrap_or(s)` on ASCII text such as a SHA).
pub open spec fn prefix_upto(s: Seq<char>, n: nat) -> Seq<char> {
    if s.len() <= n {
        s
    } else {
        s.subrange(0, n as int)
    }
}

pub proof fn lemma_split_nonempty(s: Seq<char>, c: char)
    ensures
        split(s, c).len() >= 1,
    decreases s.len(),
{
    if s.len() > 0 {
        lemma_split_nonempty(s.drop_last(), c);
    }
}

// ---------------------------------------------------------------------------
// Building strings
// ---------------------------------------------------------------------------

/// Appends one character. Trusted, not proved: the body is std's
/// `String::push`, whose documentation says it appends `c` to the end of the
/// string; the contract claims exactly that of the string's characters.
#[verifier::external_body]
pub(crate) fn push_char(s: &mut String, c: char)
    ensures
        final(s)@ == old(s)@.push(c),
{
    s.push(c);
}

/// Appends a string slice.
pub fn push_str(s: &mut String, t: &str)
    ensures
        final(s)@ == old(s)@ + t@,
{
    s.append(t);
}

/// The characters of `s`, in order.
pub fn chars_of(s: &str) -> (v: Vec<char>)
    ensures
        v@ == s@,
{
    let mut v: Vec<char> = Vec::new();
    for c in it: s.chars()
        invariant
            v@ == it.seq().take(it.index() as int),
    {
        v.push(c);
    }
    v
}

/// The characters `v[lo..hi]` as a `String`.
pub fn string_of(v: &Vec<char>, lo: usize, hi: usize) -> (s: String)
    requires
        lo <= hi <= v.len(),
    ensures
        s@ == v@.subrange(lo as int, hi as int),
{
    let mut s = String::new();
    let mut i = lo;
    while i < hi
        invariant
            lo <= i <= hi <= v.len(),
            s@ == v@.subrange(lo as int, i as int),
        decreases hi - i,
    {
        push_char(&mut s, v[i]);
        assert(v@.subrange(lo as int, i + 1) == v@.subrange(lo as int, i as int).push(v@[i as int]));
        i = i + 1;
    }
    s
}

/// A `String` holding exactly the characters of `v`.
pub fn string_from(v: &Vec<char>) -> (s: String)
    ensures
        s@ == v@,
{
    let s = string_of(v, 0, v.len());
    assert(v@.subrange(0, v@.len() as int) == v@);
    s
}

/// A copy of a string slice.
pub fn owned(t: &str) -> (s: String)
    ensures
        s@ == t@,
{
    let mut s = String::new();
    push_str(&mut s, t);
    assert(s@ == t@);
    s
}

// ---------------------------------------------------------------------------
// Queries
// ---------------------------------------------------------------------------

/// `char::is_whitespace`.
pub fn is_whitespace(c: char) -> (b: bool)
    ensures
        b == is_ws(c),
{
    let u = c as u32;
    (0x09 <= u && u <= 0x0d) || u == 0x20 || u == 0x85 || u == 0xa0 || u == 0x1680 || (0x2000
        <= u && u <= 0x200a) || u == 0x2028 || u == 0x2029 || u == 0x202f || u == 0x205f || u
        == 0x3000
}

/// The code point of `c`.
pub fn char_code(c: char) -> (u: u32)
    ensures
        u as int == c as int,
{
    c as u32
}

/// Whether two character sequences are equal.
pub fn chars_eq(a: &Vec<char>, b: &Vec<char>) -> (r: bool)
    ensures
        r == (a@ == b@),
{
    if a.len() != b.len() {
        return false;
    }
    let mut i: usize = 0;
    while i < a.len()
        invariant
            a.len() == b.len(),
            i <= a.len(),
            forall|j: int| 0 <= j < i ==> a@[j] == b@[j],
        decreases a.len() - i,
    {
        if a[i] != b[i] {
            return false;
        }
        i = i + 1;
    }
    assert(a@ =~= b@);
    true
}

/// Whether two strings are equal.
pub fn str_eq(a: &str, b: &str) -> (r: bool)
    ensures
        r == (a@ == b@),
{
    let x = chars_of(a);
    let y = chars_of(b);
    chars_eq(&x, &y)
}

/// Whether `v[lo..]` begins with `p`.
pub fn has_prefix_at(v: &Vec<char>, lo: usize, p: &Vec<char>) -> (r: bool)
    requires
        lo <= v.len(),
    ensures
        r == starts_with(v@.subrange(lo as int, v.len() as int), p@),
{
    let ghost s = v@.subrange(lo as int, v.len() as int);
    if p.len() > v.len() - lo {
        return false;
    }
    let mut i: usize = 0;
    while i < p.len()
        invariant
            lo + p.len() <= v.len(),
            s == v@.subrange(lo as int, v.len() as int),
            i <= p.len(),
            forall|j: int| 0 <= j < i ==> v@[lo + j] == p@[j],
        decreases p.len() - i,
    {
        if v[lo + i] != p[i] {
            assert(s.subrange(0, p.len() as int)[i as int] != p@[i as int]);
            return false;
        }
        i = i + 1;
    }
    assert(s.subrange(0, p.len() as int) =~= p@);
    true
}

/// Whether `s` begins with `p`.
pub fn str_starts_with(s: &str, p: &str) -> (r: bool)
    ensures
        r == starts_with(s@, p@),
{
    let v = chars_of(s);
    let q = chars_of(p);
    let r = has_prefix_at(&v, 0, &q);
    assert(v@.subrange(0, v@.len() as int) == v@);
    r
}

/// The end of `v[..hi]` once trailing whitespace is dropped.
pub fn trim_end_len(v: &Vec<char>, hi: usize) -> (n: usize)
    requires
        hi <= v.len(),
    ensures
        n <= hi,
        v@.subrange(0, n as int) == trim_end(v@.subrange(0, hi as int)),
{
    let mut n = hi;
    while n > 0 && is_whitespace(v[n - 1])
        invariant
            n <= hi <= v.len(),
            trim_end(v@.subrange(0, n as int)) == trim_end(v@.subrange(0, hi as int)),
        decreases n,
    {
        assert(v@.subrange(0, n as int).drop_last() == v@.subrange(0, n - 1));
        n = n - 1;
    }
    n
}

/// The start of `v[lo..hi]` once leading whitespace is dropped.
pub fn trim_start_idx(v: &Vec<char>, lo: usize, hi: usize) -> (k: usize)
    requires
        lo <= hi <= v.len(),
    ensures
        lo <= k <= hi,
        v@.subrange(k as int, hi as int) == trim_start(v@.subrange(lo as int, hi as int)),
{
    let mut k = lo;
    while k < hi && is_whitespace(v[k])
        invariant
            lo <= k <= hi <= v.len(),
            trim_start(v@.subrange(k as int, hi as int)) == trim_start(
                v@.subrange(lo as int, hi as int),
            ),
        decreases hi - k,
    {
        assert(v@.subrange(k as int, hi as int).drop_first() == v@.subrange(k + 1, hi as int));
        k = k + 1;
    }
    k
}

/// `s` without prefix `pre` and then suffix `suf`, when it has both.
pub open spec fn strip_both(s: Seq<char>, pre: Seq<char>, suf: Seq<char>) -> Option<Seq<char>> {
    match strip_prefix(s, pre) {
        Some(rest) => strip_suffix(rest, suf),
        None => None,
    }
}

/// Whether `v[..hi]` ends with `p`.
pub fn has_suffix_at(v: &Vec<char>, hi: usize, p: &Vec<char>) -> (r: bool)
    requires
        hi <= v.len(),
    ensures
        r == ends_with(v@.subrange(0, hi as int), p@),
{
    let ghost s = v@.subrange(0, hi as int);
    if p.len() > hi {
        return false;
    }
    let lo = hi - p.len();
    let mut i: usize = 0;
    while i < p.len()
        invariant
            lo + p.len() == hi <= v.len(),
            s == v@.subrange(0, hi as int),
            i <= p.len(),
            forall|j: int| 0 <= j < i ==> v@[lo + j] == p@[j],
        decreases p.len() - i,
    {
        if v[lo + i] != p[i] {
            assert(s.subrange(lo as int, hi as int)[i as int] != p@[i as int]);
            return false;
        }
        i = i + 1;
    }
    assert(s.subrange(lo as int, hi as int) =~= p@);
    true
}

/// `v` without prefix `pre` and then suffix `suf`, as a `String`.
pub fn strip_affixes(v: &Vec<char>, pre: &Vec<char>, suf: &Vec<char>) -> (r: Option<String>)
    ensures
        r is Some <==> strip_both(v@, pre@, suf@) is Some,
        r matches Some(n) ==> strip_both(v@, pre@, suf@) == Some(n@),
{
    assert(v@.subrange(0, v@.len() as int) == v@);
    if !has_prefix_at(v, 0, pre) {
        return None;
    }
    let lo = pre.len();
    let ghost rest = v@.subrange(lo as int, v@.len() as int);
    if suf.len() > v.len() - lo {
        return None;
    }
    let hi = v.len() - suf.len();
    let ghost tail = v@.subrange(hi as int, v@.len() as int);
    assert(rest.subrange(rest.len() - suf@.len(), rest.len() as int) == tail);
    if !has_suffix_at(v, v.len(), suf) {
        return None;
    }
    assert(rest.subrange(0, rest.len() - suf@.len()) == v@.subrange(lo as int, hi as int));
    Some(string_of(v, lo, hi))
}

/// `s` without prefix `pre`, as a `String`.
pub fn strip_prefix_str(s: &str, pre: &str) -> (r: Option<String>)
    ensures
        r is Some <==> strip_prefix(s@, pre@) is Some,
        r matches Some(n) ==> strip_prefix(s@, pre@) == Some(n@),
{
    let v = chars_of(s);
    let p = chars_of(pre);
    assert(v@.subrange(0, v@.len() as int) == v@);
    if has_prefix_at(&v, 0, &p) {
        Some(string_of(&v, p.len(), v.len()))
    } else {
        None
    }
}

/// `s.trim_end()` as a `String`.
pub fn str_trim_end(s: &str) -> (r: String)
    ensures
        r@ == trim_end(s@),
{
    let v = chars_of(s);
    let n = trim_end_len(&v, v.len());
    assert(v@.subrange(0, v@.len() as int) == v@);
    string_of(&v, 0, n)
}

/// `s.trim()` as a `String`.
pub fn str_trim(s: &str) -> (r: String)
    ensures
        r@ == trim(s@),
{
    let v = chars_of(s);
    let n = trim_end_len(&v, v.len());
    assert(v@.subrange(0, v@.len() as int) == v@);
    let k = trim_start_idx(&v, 0, n);
    string_of(&v, k, n)
}

// ---------------------------------------------------------------------------
// Splitting
// ---------------------------------------------------------------------------

/// The pieces of `v` between occurrences of `c`.
pub fn split_chars(v: &Vec<char>, c: char) -> (out: Vec<Vec<char>>)
    ensures
        out.deep_view() == split(v@, c),
{
    let mut out: Vec<Vec<char>> = Vec::new();
    let mut cur: Vec<char> = Vec::new();
    let mut i: usize = 0;
    assert(v@.subrange(0, 0) =~= Seq::<char>::empty());
    while i < v.len()
        invariant
            i <= v.len(),
            out.deep_view().push(cur@) == split(v@.subrange(0, i as int), c),
        decreases v.len() - i,
    {
        let ghost pre = v@.subrange(0, i as int);
        let ghost nxt = v@.subrange(0, i + 1);
        assert(nxt.drop_last() == pre);
        assert(nxt.last() == v@[i as int]);
        if v[i] == c {
            let ghost before = out.deep_view();
            let ghost cv = cur@;
            assert(cur.deep_view() =~= cv);
            out.push(cur);
            cur = Vec::new();
            assert(out.deep_view() =~= before.push(cv));
            assert(out.deep_view().push(cur@) =~= split(nxt, c));
        } else {
            let ghost before = out.deep_view();
            cur.push(v[i]);
            assert(out.deep_view() == before);
            assert(out.deep_view().push(cur@) =~= split(nxt, c));
        }
        i = i + 1;
    }
    let ghost before = out.deep_view();
    let ghost cv = cur@;
    assert(cur.deep_view() =~= cv);
    out.push(cur);
    assert(out.deep_view() =~= before.push(cv));
    assert(v@.subrange(0, v@.len() as int) == v@);
    out
}

/// The lines of `s` (`str::lines`), each as a `String`.
pub fn lines_of(s: &str) -> (out: Vec<String>)
    ensures
        out.deep_view() == lines(s@),
{
    let v = chars_of(s);
    let p = split_chars(&v, '\n');
    proof {
        lemma_split_nonempty(v@, '\n');
    }
    let ghost ps = split(s@, '\n');
    let ghost ended = Seq::new((ps.len() - 1) as nat, |i: int| strip_cr(ps[i]));
    let mut out: Vec<String> = Vec::new();
    let last = p.len() - 1;
    let mut i: usize = 0;
    while i < last
        invariant
            p.deep_view() == ps,
            ps.len() >= 1,
            last == ps.len() - 1,
            i <= last,
            ended == Seq::new((ps.len() - 1) as nat, |i: int| strip_cr(ps[i])),
            out.deep_view() == ended.take(i as int),
        decreases last - i,
    {
        let piece = &p[i];
        assert(piece@ == ps[i as int]);
        let n = piece.len();
        let line = if n > 0 && piece[n - 1] == '\r' {
            assert(ps[i as int].drop_last() == piece@.subrange(0, n - 1));
            string_of(piece, 0, n - 1)
        } else {
            assert(piece@.subrange(0, n as int) == piece@);
            string_of(piece, 0, n)
        };
        let ghost before = out.deep_view();
        out.push(line);
        assert(out.deep_view() =~= before.push(line@));
        assert(ended.take(i + 1) =~= ended.take(i as int).push(ended[i as int]));
        i = i + 1;
    }
    assert(ended.take(last as int) =~= ended);
    let tail = &p[last];
    assert(tail@ == ps.last());
    if tail.len() > 0 {
        let ghost before = out.deep_view();
        out.push(string_from(tail));
        assert(out.deep_view() =~= before.push(ps.last()));
    }
    out
}


// ---------------------------------------------------------------------------
// Searching
// ---------------------------------------------------------------------------

/// The index of the first `c` in `s`, if any.
pub open spec fn index_of(s: Seq<char>, c: char) -> Option<nat>
    decreases s.len(),
{
    if s.len() == 0 {
        None
    } else if s[0] == c {
        Some(0)
    } else {
        match index_of(s.drop_first(), c) {
            Some(i) => Some(i + 1),
            None => None,
        }
    }
}

pub proof fn lemma_find_none(s: Seq<char>, c: char)
    requires
        forall|j: int| 0 <= j < s.len() ==> s[j] != c,
    ensures
        index_of(s, c) == None::<nat>,
    decreases s.len(),
{
    if s.len() > 0 {
        lemma_find_none(s.drop_first(), c);
    }
}

pub proof fn lemma_find_some(s: Seq<char>, c: char, i: int)
    requires
        0 <= i < s.len(),
        s[i] == c,
        forall|j: int| 0 <= j < i ==> s[j] != c,
    ensures
        index_of(s, c) == Some(i as nat),
    decreases i,
{
    if i > 0 {
        lemma_find_some(s.drop_first(), c, i - 1);
    }
}

/// The index of the first `c` in `v[lo..hi]`, counted from `lo`.
pub fn find_in(v: &Vec<char>, lo: usize, hi: usize, c: char) -> (r: Option<usize>)
    requires
        lo <= hi <= v.len(),
    ensures
        r matches Some(i) ==> index_of(v@.subrange(lo as int, hi as int), c) == Some(i as nat) && lo
            + i < hi,
        r is None ==> index_of(v@.subrange(lo as int, hi as int), c) == None::<nat>,
{
    let ghost s = v@.subrange(lo as int, hi as int);
    let mut i = lo;
    while i < hi
        invariant
            lo <= i <= hi <= v.len(),
            s == v@.subrange(lo as int, hi as int),
            forall|j: int| 0 <= j < i - lo ==> s[j] != c,
        decreases hi - i,
    {
        if v[i] == c {
            proof {
                lemma_find_some(s, c, i - lo);
            }
            return Some(i - lo);
        }
        i = i + 1;
    }
    proof {
        lemma_find_none(s, c);
    }
    None
}

// ---------------------------------------------------------------------------
// Decimal numbers
// ---------------------------------------------------------------------------

pub open spec fn is_digit(c: char) -> bool {
    '0' <= c <= '9'
}

pub open spec fn all_digits(s: Seq<char>) -> bool {
    forall|i: int| 0 <= i < s.len() ==> is_digit(#[trigger] s[i])
}

pub open spec fn digit_value(c: char) -> int {
    c as int - '0' as int
}

/// The value of a string of decimal digits.
pub open spec fn dec_value(s: Seq<char>) -> int
    decreases s.len(),
{
    if s.len() == 0 {
        0
    } else {
        dec_value(s.drop_last()) * 10 + digit_value(s.last())
    }
}

/// `str::parse::<u32>`: an optional `+`, then one or more ASCII digits
/// whose value fits in a `u32`.
pub open spec fn parse_u32(s: Seq<char>) -> Option<u32> {
    let d = if s.len() > 0 && s[0] == '+' {
        s.drop_first()
    } else {
        s
    };
    if d.len() > 0 && all_digits(d) && dec_value(d) <= u32::MAX {
        Some(dec_value(d) as u32)
    } else {
        None
    }
}

pub open spec fn digit_char(d: nat) -> char {
    (d + '0' as nat) as char
}

/// The decimal rendering of `n` (`u32::to_string`).
pub open spec fn dec(n: nat) -> Seq<char>
    decreases n,
{
    if n < 10 {
        seq![digit_char(n)]
    } else {
        dec(n / 10).push(digit_char(n % 10))
    }
}

pub proof fn lemma_dec_value_nonneg(s: Seq<char>)
    requires
        all_digits(s),
    ensures
        dec_value(s) >= 0,
    decreases s.len(),
{
    if s.len() > 0 {
        lemma_dec_value_nonneg(s.drop_last());
    }
}

pub proof fn lemma_dec_value_prefix(s: Seq<char>, k: int)
    requires
        all_digits(s),
        0 <= k <= s.len(),
    ensures
        dec_value(s.take(k)) <= dec_value(s),
    decreases s.len() - k,
{
    if k < s.len() {
        assert(s.drop_last().take(k) == s.take(k));
        lemma_dec_value_prefix(s.drop_last(), k);
        lemma_dec_value_nonneg(s.drop_last());
    } else {
        assert(s.take(k) == s);
    }
}

pub proof fn lemma_dec(n: nat)
    ensures
        dec(n).len() > 0,
        all_digits(dec(n)),
        dec_value(dec(n)) == n,
        dec(n)[0] != '+',
    decreases n,
{
    assert(digit_value(digit_char(n % 10)) == n % 10);
    if n < 10 {
        assert(dec(n).drop_last() =~= Seq::<char>::empty());
        assert(dec_value(dec(n)) == dec_value(Seq::<char>::empty()) * 10 + digit_value(dec(n).last()));
    } else {
        lemma_dec(n / 10);
        let p = dec(n / 10);
        assert(dec(n).drop_last() == p);
        assert(dec_value(dec(n)) == dec_value(p) * 10 + digit_value(digit_char(n % 10)));
        assert forall|i: int| 0 <= i < dec(n).len() implies is_digit(#[trigger] dec(n)[i]) by {
            if i < p.len() {
                assert(dec(n)[i] == p[i]);
            }
        }
    }
}

/// Decimal text round-trips through `parse_u32`.
pub proof fn lemma_parse_dec(n: u32)
    ensures
        parse_u32(dec(n as nat)) == Some(n),
{
    lemma_dec(n as nat);
}

/// `n.to_string()`.
pub fn u32_to_string(n: u32) -> (s: String)
    ensures
        s@ == dec(n as nat),
    decreases n,
{
    let d = n % 10;
    let c = ((d as u8) + 48u8) as char;
    assert(c == digit_char(d as nat));
    if n < 10 {
        let mut s = String::new();
        push_char(&mut s, c);
        assert(s@ =~= seq![c]);
        s
    } else {
        let mut s = u32_to_string(n / 10);
        push_char(&mut s, c);
        s
    }
}

/// `n.to_string()` for a `usize`.
pub fn usize_to_string(n: usize) -> (s: String)
    ensures
        s@ == dec(n as nat),
    decreases n,
{
    let d = n % 10;
    let c = ((d as u8) + 48u8) as char;
    assert(c == digit_char(d as nat));
    if n < 10 {
        let mut s = String::new();
        push_char(&mut s, c);
        assert(s@ =~= seq![c]);
        s
    } else {
        let mut s = usize_to_string(n / 10);
        push_char(&mut s, c);
        s
    }
}

/// `s.parse::<u32>().ok()` for `v[lo..hi]`.
pub fn parse_u32_at(v: &Vec<char>, lo: usize, hi: usize) -> (r: Option<u32>)
    requires
        lo <= hi <= v.len(),
    ensures
        r == parse_u32(v@.subrange(lo as int, hi as int)),
{
    let ghost s = v@.subrange(lo as int, hi as int);
    let start = if lo < hi && v[lo] == '+' {
        lo + 1
    } else {
        lo
    };
    let ghost d = v@.subrange(start as int, hi as int);
    assert(d == if s.len() > 0 && s[0] == '+' {
        s.drop_first()
    } else {
        s
    });
    if start == hi {
        return None;
    }
    let mut acc: u64 = 0;
    let mut i = start;
    while i < hi
        invariant
            lo <= start <= i <= hi <= v.len(),
            s == v@.subrange(lo as int, hi as int),
            d == v@.subrange(start as int, hi as int),
            d == (if s.len() > 0 && s[0] == '+' {
                s.drop_first()
            } else {
                s
            }),
            all_digits(d.take(i - start)),
            acc == dec_value(d.take(i - start)),
            acc <= u32::MAX,
        decreases hi - i,
    {
        let c = v[i];
        if !('0' <= c && c <= '9') {
            assert(d[i - start] == c);
            assert(!is_digit(d[i - start]));
            assert(!all_digits(d));
            assert(parse_u32(s) == None::<u32>);
            return None;
        }
        let dv = (c as u32 - '0' as u32) as u64;
        assert(d.take(i - start + 1).drop_last() == d.take(i - start));
        assert(d.take(i - start + 1).last() == c);
        let next = acc * 10 + dv;
        if next > 0xffff_ffffu64 {
            proof {
                if all_digits(d) {
                    lemma_dec_value_prefix(d, i - start + 1);
                    assert(dec_value(d) > u32::MAX);
                }
                assert(parse_u32(s) == None::<u32>);
            }
            return None;
        }
        acc = next;
        i = i + 1;
    }
    assert(d.take(hi - start) == d);
    Some(acc as u32)
}

/// ASCII lowercase of one character.
pub open spec fn ascii_lower(c: char) -> char {
    if 'A' <= c <= 'Z' {
        ((c as u32) + 32) as char
    } else {
        c
    }
}

/// ASCII lowercase of a string.
pub open spec fn lower(s: Seq<char>) -> Seq<char> {
    s.map_values(|c: char| ascii_lower(c))
}


// ---------------------------------------------------------------------------
// Joining
// ---------------------------------------------------------------------------

/// The pieces of `ps` with `sep` between them (`[..].join(sep)`).
pub open spec fn join(ps: Seq<Seq<char>>, sep: Seq<char>) -> Seq<char>
    decreases ps.len(),
{
    if ps.len() == 0 {
        Seq::empty()
    } else if ps.len() == 1 {
        ps[0]
    } else {
        join(ps.drop_last(), sep) + sep + ps.last()
    }
}

/// `ps.join(sep)`.
pub fn join_strings(ps: &Vec<String>, sep: &str) -> (r: String)
    ensures
        r@ == join(ps.deep_view(), sep@),
{
    let ghost pv = ps.deep_view();
    let mut r = String::new();
    let mut i: usize = 0;
    while i < ps.len()
        invariant
            i <= ps.len(),
            pv == ps.deep_view(),
            r@ == join(pv.take(i as int), sep@),
        decreases ps.len() - i,
    {
        assert(pv.take(i + 1).drop_last() == pv.take(i as int));
        assert(pv.take(i + 1).last() == ps[i as int]@);
        if i > 0 {
            push_str(&mut r, sep);
        } else {
            assert(pv.take(1)[0] == ps[0]@);
            assert(r@ == Seq::<char>::empty());
        }
        push_str(&mut r, ps[i].as_str());
        if i == 0 {
            assert(r@ =~= join(pv.take(1), sep@));
        }
        i = i + 1;
    }
    assert(pv.take(ps.len() as int) == pv);
    r
}

/// The leading ASCII digits of `s`.
pub open spec fn digits_prefix(s: Seq<char>) -> Seq<char>
    decreases s.len(),
{
    if s.len() > 0 && is_digit(s[0]) {
        seq![s[0]] + digits_prefix(s.drop_first())
    } else {
        Seq::empty()
    }
}

pub proof fn lemma_digits_prefix(s: Seq<char>, k: int)
    requires
        0 <= k <= s.len(),
        forall|j: int| 0 <= j < k ==> is_digit(#[trigger] s[j]),
        k == s.len() || !is_digit(s[k]),
    ensures
        digits_prefix(s) == s.take(k),
    decreases k,
{
    if k == 0 {
        assert(s.take(0) =~= Seq::<char>::empty());
    } else {
        assert(is_digit(s[0]));
        assert forall|j: int| 0 <= j < k - 1 implies is_digit(#[trigger] s.drop_first()[j]) by {
            assert(s.drop_first()[j] == s[j + 1]);
        }
        if k < s.len() {
            assert(s.drop_first()[k - 1] == s[k]);
        }
        lemma_digits_prefix(s.drop_first(), k - 1);
        assert(seq![s[0]] + s.drop_first().take(k - 1) =~= s.take(k));
    }
}

/// The number of leading ASCII digits of `v[lo..hi]`.
pub fn count_digits(v: &Vec<char>, lo: usize, hi: usize) -> (k: usize)
    requires
        lo <= hi <= v.len(),
    ensures
        lo <= k <= hi,
        digits_prefix(v@.subrange(lo as int, hi as int)) == v@.subrange(lo as int, k as int),
{
    let ghost s = v@.subrange(lo as int, hi as int);
    let mut k = lo;
    while k < hi && '0' <= v[k] && v[k] <= '9'
        invariant
            lo <= k <= hi <= v.len(),
            s == v@.subrange(lo as int, hi as int),
            forall|j: int| 0 <= j < k - lo ==> is_digit(#[trigger] s[j]),
        decreases hi - k,
    {
        assert(s[k - lo] == v@[k as int]);
        k = k + 1;
    }
    proof {
        if k < hi {
            assert(s[k - lo] == v@[k as int]);
        }
        lemma_digits_prefix(s, k - lo);
        assert(s.take(k - lo) == v@.subrange(lo as int, k as int));
    }
    k
}

// ---------------------------------------------------------------------------
// Words
// ---------------------------------------------------------------------------

/// The whitespace-separated words of `s` (`str::split_whitespace`).
pub open spec fn words(s: Seq<char>) -> Seq<Seq<char>> {
    words_from(s, Seq::empty())
}

/// The words of `s`, given that `cur` (a partial word, possibly empty)
/// directly precedes it.
pub open spec fn words_from(s: Seq<char>, cur: Seq<char>) -> Seq<Seq<char>>
    decreases s.len(),
{
    if s.len() == 0 {
        if cur.len() > 0 {
            seq![cur]
        } else {
            Seq::empty()
        }
    } else if is_ws(s[0]) {
        if cur.len() > 0 {
            seq![cur] + words_from(s.drop_first(), Seq::empty())
        } else {
            words_from(s.drop_first(), Seq::empty())
        }
    } else {
        words_from(s.drop_first(), cur.push(s[0]))
    }
}

/// The words of `t`.
pub fn split_words(t: &str) -> (r: Vec<String>)
    ensures
        r.deep_view() == words(t@),
{
    let v = chars_of(t);
    let mut r: Vec<String> = Vec::new();
    let mut cur: Vec<char> = Vec::new();
    let mut i: usize = 0;
    assert(v@.skip(0) == v@);
    while i < v.len()
        invariant
            i <= v.len(),
            v@ == t@,
            r.deep_view() + words_from(v@.skip(i as int), cur@) == words(t@),
        decreases v.len() - i,
    {
        let c = v[i];
        assert(v@.skip(i as int)[0] == c);
        assert(v@.skip(i as int).drop_first() == v@.skip(i + 1));
        if is_whitespace(c) {
            if cur.len() > 0 {
                let ghost before = r.deep_view();
                let ghost cv = cur@;
                r.push(string_from(&cur));
                assert(r.deep_view() =~= before.push(cv));
                assert(before + (seq![cv] + words_from(v@.skip(i + 1), Seq::empty())) =~= before.push(cv)
                    + words_from(v@.skip(i + 1), Seq::empty()));
                cur = Vec::new();
                assert(cur@ =~= Seq::<char>::empty());
            } else {
                assert(cur@ =~= Seq::<char>::empty());
            }
        } else {
            cur.push(c);
        }
        i = i + 1;
    }
    assert(v@.skip(v.len() as int) =~= Seq::<char>::empty());
    if cur.len() > 0 {
        let ghost before = r.deep_view();
        let ghost cv = cur@;
        r.push(string_from(&cur));
        assert(r.deep_view() =~= before.push(cv));
        assert(before + seq![cv] =~= before.push(cv));
    } else {
        assert(r.deep_view() + Seq::<Seq<char>>::empty() =~= r.deep_view());
    }
    r
}
} // verus!
