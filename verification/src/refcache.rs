//! The per-remote cache of ref names (and their tip SHAs) behind `<ref>`
//! completion and `status`'s upstream column: the cache file's name and
//! format, reading `git ls-remote` and `git for-each-ref` output, and the
//! decision of where completion candidates come from. Reading and writing the
//! file, and running git, are the caller's part.

use vstd::prelude::*;

use vstd::string::StringSliceAdditionalSpecFns;

use crate::order::{sorted_unique, strictly_sorted};
use crate::text;
use crate::text::{
    chars_of, index_of, lines, owned, push_char, push_str, split, split_chars, string_from,
    string_of, strip_prefix,
};

verus! {

// ---------------------------------------------------------------------------
// Cache file name
// ---------------------------------------------------------------------------

pub open spec fn fnv_offset() -> u64 {
    0xcbf2_9ce4_8422_2325
}

pub open spec fn fnv_prime() -> u64 {
    0x0000_0100_0000_01b3
}

/// FNV-1a, 64 bits, over `bytes`.
pub open spec fn fnv(bytes: Seq<u8>) -> u64
    decreases bytes.len(),
{
    if bytes.len() == 0 {
        fnv_offset()
    } else {
        (fnv(bytes.drop_last()) ^ (bytes.last() as u64)).wrapping_mul(fnv_prime())
    }
}

pub open spec fn hex_lower(d: u64) -> char {
    if d < 10 {
        (d + 48) as char
    } else {
        (d - 10 + 97) as char
    }
}

/// `h` as sixteen lowercase hex digits (`format!("{h:016x}")`).
pub open spec fn hex16(h: u64) -> Seq<char> {
    Seq::new(16, |i: int| hex_lower((h >> ((60 - 4 * i) as u64)) & 0xf))
}

/// FNV-1a 64-bit of the URL's UTF-8 bytes as a stable file name.
pub fn fnv1a(s: &str) -> (r: String)
    ensures
        r@ == hex16(fnv(s.spec_bytes())),
{
    let bytes = s.as_bytes();
    let mut h: u64 = 0xcbf2_9ce4_8422_2325;
    let mut i: usize = 0;
    while i < bytes.len()
        invariant
            i <= bytes.len(),
            bytes@ == s.spec_bytes(),
            h == fnv(bytes@.take(i as int)),
        decreases bytes.len() - i,
    {
        assert(bytes@.take(i + 1).drop_last() == bytes@.take(i as int));
        assert(bytes@.take(i + 1).last() == bytes@[i as int]);
        h = (h ^ (bytes[i] as u64)).wrapping_mul(0x0000_0100_0000_01b3);
        i = i + 1;
    }
    assert(bytes@.take(bytes.len() as int) == bytes@);
    let mut r = String::new();
    let mut k: u64 = 0;
    while k < 16
        invariant
            k <= 16,
            h == fnv(s.spec_bytes()),
            r@ == hex16(h).take(k as int),
        decreases 16 - k,
    {
        let sh: u64 = 60 - 4 * k;
        let d = (h >> sh) & 0xf;
        assert(d < 16) by (bit_vector)
            requires
                d == (h >> sh) & 0xf,
        ;
        assert(sh == ((60 - 4 * k) as u64));
        let c = if d < 10 {
            ((d as u8) + 48u8) as char
        } else {
            ((d as u8) - 10 + 97u8) as char
        };
        assert(c == hex_lower(d));
        push_char(&mut r, c);
        assert(hex16(h).take(k + 1) =~= hex16(h).take(k as int).push(c));
        k = k + 1;
    }
    assert(hex16(h).take(16) =~= hex16(h));
    r
}

/// The cache file name is sixteen hex digits.
pub proof fn lemma_hex16_shape(h: u64)
    ensures
        hex16(h).len() == 16,
        forall|i: int|
            0 <= i < 16 ==> ('0' <= #[trigger] hex16(h)[i] <= '9' || 'a' <= hex16(h)[i] <= 'f'),
{
    assert forall|i: int| 0 <= i < 16 implies ('0' <= #[trigger] hex16(h)[i] <= '9' || 'a'
        <= hex16(h)[i] <= 'f') by {
        let sh = (60 - 4 * i) as u64;
        let d = (h >> sh) & 0xf;
        assert(d <= 0xf) by (bit_vector)
            requires
                d == (h >> sh) & 0xf,
        ;
    }
}

/// The low byte of a wrapped product depends only on the low bytes of its
/// factors.
proof fn lemma_low_byte_of_product(a: u64, b: u64)
    ensures
        (a.wrapping_mul(b) as int) % 256 == ((a as int % 256) * (b as int % 256)) % 256,
{
    let x = a as int;
    let y = b as int;
    let r = 0x1_0000_0000_0000_0000int;
    assert(r == 256 * 0x100_0000_0000_0000int);
    vstd::arithmetic::div_mod::lemma_mod_mod(x * y, 256, 0x100_0000_0000_0000int);
    vstd::arithmetic::div_mod::lemma_mul_mod_noop_general(x, y, 256);
    assert(a.wrapping_mul(b) as int == (x * y) % r) by {
        vstd::arithmetic::div_mod::lemma_mod_bound(x * y, r);
        assert(0 <= x * y) by (nonlinear_arith)
            requires
                0 <= x,
                0 <= y,
        ;
    }
}

/// The last two hex digits of a name give the low byte of the hash.
proof fn lemma_hex16_low_byte(h1: u64, h2: u64)
    requires
        hex16(h1) == hex16(h2),
    ensures
        h1 & 0xff == h2 & 0xff,
{
    assert(hex16(h1)[15] == hex16(h2)[15]);
    assert(hex16(h1)[14] == hex16(h2)[14]);
    let a0 = (h1 >> 0u64) & 0xf;
    let b0 = (h2 >> 0u64) & 0xf;
    let a1 = (h1 >> 4u64) & 0xf;
    let b1 = (h2 >> 4u64) & 0xf;
    assert(a0 < 16 && b0 < 16 && a1 < 16 && b1 < 16) by (bit_vector)
        requires
            a0 == (h1 >> 0u64) & 0xf,
            b0 == (h2 >> 0u64) & 0xf,
            a1 == (h1 >> 4u64) & 0xf,
            b1 == (h2 >> 4u64) & 0xf,
    ;
    assert(hex16(h1)[15] == hex_lower(a0));
    assert(hex16(h2)[15] == hex_lower(b0));
    assert(hex16(h1)[14] == hex_lower(a1));
    assert(hex16(h2)[14] == hex_lower(b1));
    assert(a0 == b0);
    assert(a1 == b1);
    assert(h1 & 0xff == h2 & 0xff) by (bit_vector)
        requires
            (h1 >> 0u64) & 0xf == (h2 >> 0u64) & 0xf,
            (h1 >> 4u64) & 0xf == (h2 >> 4u64) & 0xf,
    ;
}

/// URLs whose bytes differ only in the last one get different cache file
/// names: the last step of FNV-1a is a bijection on the low byte.
pub proof fn lemma_fnv_last_byte_differs(prefix: Seq<u8>, x: u8, y: u8)
    requires
        x != y,
    ensures
        hex16(fnv(prefix.push(x))) != hex16(fnv(prefix.push(y))),
{
    let h = fnv(prefix);
    assert(prefix.push(x).drop_last() =~= prefix);
    assert(prefix.push(y).drop_last() =~= prefix);
    let a = h ^ (x as u64);
    let b = h ^ (y as u64);
    let p = fnv_prime();
    assert(fnv(prefix.push(x)) == a.wrapping_mul(p));
    assert(fnv(prefix.push(y)) == b.wrapping_mul(p));
    lemma_low_byte_of_product(a, p);
    lemma_low_byte_of_product(b, p);
    let la = a & 0xff;
    let lb = b & 0xff;
    assert(la != lb && la < 256 && lb < 256) by (bit_vector)
        requires
            x != y,
            a == h ^ (x as u64),
            b == h ^ (y as u64),
            la == a & 0xff,
            lb == b & 0xff,
    ;
    assert(la == a % 256 && lb == b % 256 && (p & 0xff) == p % 256 && p & 0xff == 0xb3) by (bit_vector)
        requires
            la == a & 0xff,
            lb == b & 0xff,
            p == 0x0000_0100_0000_01b3u64,
    ;
    assert((la * 0xb3u64) % 256 != (lb * 0xb3u64) % 256) by (bit_vector)
        requires
            la != lb,
            la < 256,
            lb < 256,
    ;
    if hex16(fnv(prefix.push(x))) == hex16(fnv(prefix.push(y))) {
        let ha = fnv(prefix.push(x));
        let hb = fnv(prefix.push(y));
        lemma_hex16_low_byte(ha, hb);
        assert(ha & 0xff == ha % 256 && hb & 0xff == hb % 256) by (bit_vector);
        assert(false);
    }
}

// ---------------------------------------------------------------------------
// Ref names
// ---------------------------------------------------------------------------

/// A branch or tag name without its `refs/tags/` or `refs/heads/` prefix;
/// other refs have no name here.
pub open spec fn strip_ref(r: Seq<char>) -> Option<Seq<char>> {
    match strip_prefix(r, "refs/tags/"@) {
        Some(t) => Some(t),
        None => strip_prefix(r, "refs/heads/"@),
    }
}

/// The bare name of a tag or branch ref.
pub fn strip(refname: &str) -> (r: Option<String>)
    ensures
        r is Some <==> strip_ref(refname@) is Some,
        r matches Some(n) ==> strip_ref(refname@) == Some(n@),
{
    match text::strip_prefix_str(refname, "refs/tags/") {
        Some(t) => Some(t),
        None => text::strip_prefix_str(refname, "refs/heads/"),
    }
}

/// The `(name, sha)` of one `git ls-remote` line `<sha>\t<ref>`, for tags
/// and branches.
pub open spec fn remote_entry(line: Seq<char>) -> Option<(Seq<char>, Seq<char>)> {
    let f = split(line, '\t');
    if f.len() >= 2 {
        match strip_ref(f[1]) {
            Some(n) => Some((n, f[0])),
            None => None,
        }
    } else {
        None
    }
}

/// The tag and branch entries of `git ls-remote` output lines.
pub open spec fn remote_entries(ls: Seq<Seq<char>>) -> Seq<(Seq<char>, Seq<char>)>
    decreases ls.len(),
{
    if ls.len() == 0 {
        Seq::empty()
    } else {
        let prev = remote_entries(ls.drop_last());
        match remote_entry(ls.last()) {
            Some(e) => prev.push(e),
            None => prev,
        }
    }
}

pub open spec fn names_of(es: Seq<(Seq<char>, Seq<char>)>) -> Seq<Seq<char>> {
    Seq::new(es.len(), |i: int| es[i].0)
}

pub open spec fn shas_of(es: Seq<(Seq<char>, Seq<char>)>) -> Seq<Seq<char>> {
    Seq::new(es.len(), |i: int| es[i].1)
}

/// The tags and branches of `git ls-remote --heads --tags --refs` output,
/// with the SHA each points at.
pub fn parse_entries(out: &str) -> (r: Vec<(String, String)>)
    ensures
        r.deep_view() == remote_entries(lines(out@)),
{
    let ls = text::lines_of(out);
    let ghost lv = ls.deep_view();
    let mut r: Vec<(String, String)> = Vec::new();
    let mut i: usize = 0;
    while i < ls.len()
        invariant
            i <= ls.len(),
            lv == ls.deep_view(),
            lv == lines(out@),
            r.deep_view() == remote_entries(lv.take(i as int)),
        decreases ls.len() - i,
    {
        assert(lv.take(i + 1).drop_last() == lv.take(i as int));
        assert(lv.take(i + 1).last() == ls[i as int]@);
        let lc = chars_of(ls[i].as_str());
        let f = split_chars(&lc, '\t');
        if f.len() >= 2 {
            let name_ref = string_from(&f[1]);
            assert(f[1]@ == split(lc@, '\t')[1]);
            match strip(name_ref.as_str()) {
                Some(n) => {
                    let sha = string_from(&f[0]);
                    assert(f[0]@ == split(lc@, '\t')[0]);
                    let ghost before = r.deep_view();
                    let ghost ev = (n@, sha@);
                    let e = (n, sha);
                    assert(e.deep_view() == ev);
                    r.push(e);
                    assert(r.deep_view() =~= before.push(ev));
                },
                None => {},
            }
        }
        i = i + 1;
    }
    assert(lv.take(ls.len() as int) == lv);
    r
}

/// The bare tag and branch names of `git ls-remote` output; other refs
/// (pull requests etc.) are skipped.
pub fn parse(out: &str) -> (r: Vec<String>)
    ensures
        r.deep_view() == names_of(remote_entries(lines(out@))),
{
    let es = parse_entries(out);
    let mut r: Vec<String> = Vec::new();
    let mut i: usize = 0;
    while i < es.len()
        invariant
            i <= es.len(),
            r.deep_view() == names_of(es.deep_view()).take(i as int),
        decreases es.len() - i,
    {
        let ghost before = r.deep_view();
        r.push(es[i].0.clone());
        assert(r.deep_view() =~= before.push(es.deep_view()[i as int].0));
        assert(names_of(es.deep_view()).take(i + 1) =~= names_of(es.deep_view()).take(
            i as int,
        ).push(es.deep_view()[i as int].0));
        i = i + 1;
    }
    assert(names_of(es.deep_view()).take(es.len() as int) =~= names_of(es.deep_view()));
    r
}

/// The name a local ref offers offline: a tag, or a remote-tracking branch
/// of `origin` other than `HEAD`.
pub open spec fn local_ref(r: Seq<char>) -> Option<Seq<char>> {
    match strip_prefix(r, "refs/tags/"@) {
        Some(t) => Some(t),
        None => match strip_prefix(r, "refs/remotes/origin/"@) {
            Some(b) => if b == "HEAD"@ {
                None
            } else {
                Some(b)
            },
            None => None,
        },
    }
}

pub open spec fn local_names(ls: Seq<Seq<char>>) -> Seq<Seq<char>>
    decreases ls.len(),
{
    if ls.len() == 0 {
        Seq::empty()
    } else {
        let prev = local_names(ls.drop_last());
        match local_ref(ls.last()) {
            Some(n) => prev.push(n),
            None => prev,
        }
    }
}

/// Offline fallback: the ref names in a submodule's own git dir, from the
/// output of `git for-each-ref --format=%(refname) refs/tags
/// refs/remotes/origin` (tags, and the remote-tracking branches `picky
/// update` fetches).
pub fn local_refs(out: &str) -> (r: Vec<String>)
    ensures
        r.deep_view() == local_names(lines(out@)),
{
    let ls = text::lines_of(out);
    let ghost lv = ls.deep_view();
    let mut r: Vec<String> = Vec::new();
    let mut i: usize = 0;
    while i < ls.len()
        invariant
            i <= ls.len(),
            lv == ls.deep_view(),
            lv == lines(out@),
            r.deep_view() == local_names(lv.take(i as int)),
        decreases ls.len() - i,
    {
        assert(lv.take(i + 1).drop_last() == lv.take(i as int));
        assert(lv.take(i + 1).last() == ls[i as int]@);
        let line = ls[i].as_str();
        let found = match text::strip_prefix_str(line, "refs/tags/") {
            Some(t) => Some(t),
            None => match text::strip_prefix_str(line, "refs/remotes/origin/") {
                Some(b) => {
                    if text::str_eq(b.as_str(), "HEAD") {
                        None
                    } else {
                        Some(b)
                    }
                },
                None => None,
            },
        };
        match found {
            Some(n) => {
                let ghost before = r.deep_view();
                r.push(n);
                assert(r.deep_view() =~= before.push(local_ref(lv[i as int])->0));
            },
            None => {},
        }
        i = i + 1;
    }
    assert(lv.take(ls.len() as int) == lv);
    r
}

// ---------------------------------------------------------------------------
// The cache file
// ---------------------------------------------------------------------------

/// How long, in seconds, a cached ref list is considered fresh.
pub const TTL_SECS: u64 = 3600;

/// Whether a cache file last written `age_secs` seconds ago is still fresh.
pub fn is_fresh(age_secs: u64) -> (r: bool)
    ensures
        r == (age_secs < TTL_SECS),
{
    age_secs < TTL_SECS
}

/// A cached ref list: each name with the SHA it pointed at (empty when not
/// recorded), and whether it is still within the freshness window.
#[derive(Debug)]
pub struct Cached {
    pub entries: Vec<(String, String)>,
    pub fresh: bool,
}

/// The SHA that the first entry named `name` records, if any.
pub open spec fn cached_sha(es: Seq<(Seq<char>, Seq<char>)>, name: Seq<char>) -> Option<Seq<char>>
    decreases es.len(),
{
    if es.len() == 0 {
        None
    } else if es[0].0 == name {
        if es[0].1.len() > 0 {
            Some(es[0].1)
        } else {
            None
        }
    } else {
        cached_sha(es.drop_first(), name)
    }
}

/// One line of the cache file: `<name>\t<sha>`, or a bare name.
pub open spec fn cache_entry(l: Seq<char>) -> (Seq<char>, Seq<char>) {
    match index_of(l, '\t') {
        Some(i) => (l.take(i as int), l.skip(i as int + 1)),
        None => (l, Seq::empty()),
    }
}

pub open spec fn cache_entries(ls: Seq<Seq<char>>) -> Seq<(Seq<char>, Seq<char>)>
    decreases ls.len(),
{
    if ls.len() == 0 {
        Seq::empty()
    } else {
        let prev = cache_entries(ls.drop_last());
        if ls.last().len() == 0 {
            prev
        } else {
            prev.push(cache_entry(ls.last()))
        }
    }
}

/// The text of a cache file: one `<name>\t<sha>` line per entry.
pub open spec fn cache_text(es: Seq<(Seq<char>, Seq<char>)>) -> Seq<char>
    decreases es.len(),
{
    if es.len() == 0 {
        Seq::empty()
    } else if es.len() == 1 {
        es[0].0 + "\t"@ + es[0].1
    } else {
        cache_text(es.drop_last()) + "\n"@ + es.last().0 + "\t"@ + es.last().1
    }
}

/// One line of the cache file for `e`.
pub open spec fn cache_line(e: (Seq<char>, Seq<char>)) -> Seq<char> {
    e.0 + "\t"@ + e.1
}

/// An entry the cache file stores faithfully: a non-empty name without tab
/// or line break, and a SHA without line breaks (every ref name and
/// hexadecimal SHA qualifies).
pub open spec fn storable(e: (Seq<char>, Seq<char>)) -> bool {
    &&& e.0.len() > 0
    &&& !e.0.contains('\t')
    &&& !e.0.contains('\n')
    &&& !e.1.contains('\n')
    &&& !e.1.contains('\r')
}

proof fn lemma_line_shape(e: (Seq<char>, Seq<char>))
    requires
        storable(e),
    ensures
        !cache_line(e).contains('\n'),
        cache_line(e).len() > 0,
        cache_line(e).last() != '\r',
        cache_entry(cache_line(e)) == e,
{
    reveal_strlit("\t");
    let l = cache_line(e);
    assert(l =~= e.0.push('\t') + e.1);
    assert(l[e.0.len() as int] == '\t');
    if l.contains('\n') {
        let j = choose|j: int| 0 <= j < l.len() && l[j] == '\n';
        if j < e.0.len() {
            assert(e.0[j] == '\n');
        } else if j > e.0.len() {
            assert(e.1[j - e.0.len() - 1] == '\n');
        }
    }
    if e.1.len() > 0 {
        assert(l.last() == e.1[e.1.len() - 1]);
    }
    assert forall|j: int| 0 <= j < e.0.len() implies l[j] != '\t' by {
        assert(l[j] == e.0[j]);
    }
    text::lemma_find_some(l, '\t', e.0.len() as int);
    assert(l.take(e.0.len() as int) =~= e.0);
    assert(l.skip(e.0.len() as int + 1) =~= e.1);
}

/// The lines of the file for `es`.
pub open spec fn cache_lines(es: Seq<(Seq<char>, Seq<char>)>) -> Seq<Seq<char>> {
    Seq::new(es.len(), |i: int| cache_line(es[i]))
}

proof fn lemma_pieces(es: Seq<(Seq<char>, Seq<char>)>)
    requires
        es.len() >= 1,
        forall|i: int| 0 <= i < es.len() ==> storable(#[trigger] es[i]),
    ensures
        split(cache_text(es), '\n') == cache_lines(es),
    decreases es.len(),
{
    lemma_line_shape(es.last());
    if es.len() == 1 {
        assert(cache_text(es) == cache_line(es[0]));
        text::lemma_split_single(cache_line(es[0]), '\n');
        assert(cache_lines(es) =~= seq![cache_line(es[0])]);
    } else {
        let prev = es.drop_last();
        assert forall|i: int| 0 <= i < prev.len() implies storable(#[trigger] prev[i]) by {
            assert(prev[i] == es[i]);
        }
        lemma_pieces(prev);
        reveal_strlit("\n");
        reveal_strlit("\t");
        assert(cache_text(es) =~= cache_text(prev).push('\n') + cache_line(es.last()));
        text::lemma_split_join(cache_text(prev), cache_line(es.last()), '\n');
        text::lemma_split_single(cache_line(es.last()), '\n');
        assert(cache_lines(es) =~= cache_lines(prev) + seq![cache_line(es.last())]);
    }
}

proof fn lemma_entries_back(es: Seq<(Seq<char>, Seq<char>)>)
    requires
        forall|i: int| 0 <= i < es.len() ==> storable(#[trigger] es[i]),
    ensures
        cache_entries(cache_lines(es)) == es,
    decreases es.len(),
{
    if es.len() > 0 {
        let prev = es.drop_last();
        assert forall|i: int| 0 <= i < prev.len() implies storable(#[trigger] prev[i]) by {
            assert(prev[i] == es[i]);
        }
        lemma_entries_back(prev);
        lemma_line_shape(es.last());
        assert(cache_lines(es).drop_last() =~= cache_lines(prev));
        assert(cache_lines(es).last() == cache_line(es.last()));
        assert(prev.push(es.last()) =~= es);
    } else {
        assert(cache_lines(es) =~= Seq::<Seq<char>>::empty());
    }
}

/// What is written to the cache file reads back unchanged: for entries the
/// file can hold, reading the text of `es` gives `es` again.
pub proof fn lemma_cache_roundtrip(es: Seq<(Seq<char>, Seq<char>)>)
    requires
        forall|i: int| 0 <= i < es.len() ==> storable(#[trigger] es[i]),
    ensures
        cache_entries(lines(cache_text(es))) == es,
{
    if es.len() == 0 {
        assert(cache_text(es) == Seq::<char>::empty());
        assert(lines(Seq::<char>::empty()) =~= Seq::<Seq<char>>::empty());
    } else {
        lemma_pieces(es);
        let p = split(cache_text(es), '\n');
        lemma_line_shape(es.last());
        assert forall|i: int| 0 <= i < es.len() - 1 implies text::strip_cr(p[i]) == p[i] by {
            lemma_line_shape(es[i]);
        }
        assert(lines(cache_text(es)) =~= cache_lines(es));
        lemma_entries_back(es);
    }
}

/// The ref names of `es`, in order.
fn entry_names(es: &Vec<(String, String)>) -> (r: Vec<String>)
    ensures
        r.deep_view() == names_of(es.deep_view()),
{
    let mut r: Vec<String> = Vec::new();
    let ghost ev = es.deep_view();
    let mut i: usize = 0;
    while i < es.len()
        invariant
            i <= es.len(),
            ev == es.deep_view(),
            r.deep_view() == names_of(ev).take(i as int),
        decreases es.len() - i,
    {
        let ghost before = r.deep_view();
        r.push(es[i].0.clone());
        assert(r.deep_view() =~= before.push(ev[i as int].0));
        assert(names_of(ev).take(i + 1) =~= names_of(ev).take(i as int).push(ev[i as int].0));
        i = i + 1;
    }
    assert(names_of(ev).take(es.len() as int) =~= names_of(ev));
    r
}

impl Cached {
    /// Read a cache file's text; blank lines are skipped.
    pub fn from_text(body: &str, fresh: bool) -> (c: Cached)
        ensures
            c.entries.deep_view() == cache_entries(lines(body@)),
            c.fresh == fresh,
    {
        let ls = text::lines_of(body);
        let ghost lv = ls.deep_view();
        let mut entries: Vec<(String, String)> = Vec::new();
        let mut i: usize = 0;
        while i < ls.len()
            invariant
                i <= ls.len(),
                lv == ls.deep_view(),
                lv == lines(body@),
                entries.deep_view() == cache_entries(lv.take(i as int)),
            decreases ls.len() - i,
        {
            assert(lv.take(i + 1).drop_last() == lv.take(i as int));
            assert(lv.take(i + 1).last() == ls[i as int]@);
            let lc = chars_of(ls[i].as_str());
            if lc.len() > 0 {
                let e = match text::find_in(&lc, 0, lc.len(), '\t') {
                    Some(k) => {
                        assert(lc@.subrange(0, lc@.len() as int) == lc@);
                        assert(lc@.take(k as int) == lc@.subrange(0, k as int));
                        assert(lc@.skip(k as int + 1) == lc@.subrange(k + 1, lc@.len() as int));
                        (string_of(&lc, 0, k), string_of(&lc, k + 1, lc.len()))
                    },
                    None => {
                        assert(lc@.subrange(0, lc@.len() as int) == lc@);
                        (string_from(&lc), String::new())
                    },
                };
                let ghost ev = (e.0@, e.1@);
                assert(ev == cache_entry(lc@));
                assert(e.deep_view() == ev);
                let ghost before = entries.deep_view();
                entries.push(e);
                assert(entries.deep_view() =~= before.push(ev));
            }
            i = i + 1;
        }
        assert(lv.take(ls.len() as int) == lv);
        Cached { entries, fresh }
    }

    /// The cached ref names.
    pub fn refs(&self) -> (r: Vec<String>)
        ensures
            r.deep_view() == names_of(self.entries.deep_view()),
    {
        entry_names(&self.entries)
    }

    /// The SHA the cache records for ref `name`.
    pub fn sha(&self, name: &String) -> (r: Option<String>)
        ensures
            crate::config::opt_view(r) == cached_sha(self.entries.deep_view(), name@),
    {
        let ghost es = self.entries.deep_view();
        let mut i: usize = 0;
        assert(es.skip(0) == es);
        while i < self.entries.len()
            invariant
                i <= self.entries.len(),
                es == self.entries.deep_view(),
                cached_sha(es, name@) == cached_sha(es.skip(i as int), name@),
            decreases self.entries.len() - i,
        {
            assert(es.skip(i as int)[0] == es[i as int]);
            assert(es.skip(i as int).drop_first() == es.skip(i + 1));
            let e = &self.entries[i];
            if e.0 == *name {
                let sc = chars_of(e.1.as_str());
                if sc.len() > 0 {
                    return Some(e.1.clone());
                } else {
                    return None;
                }
            }
            i = i + 1;
        }
        None
    }
}

/// The text to store for `entries`.
pub fn cache_body(entries: &Vec<(String, String)>) -> (r: String)
    ensures
        r@ == cache_text(entries.deep_view()),
{
    let ghost es = entries.deep_view();
    let mut r = String::new();
    let mut i: usize = 0;
    while i < entries.len()
        invariant
            i <= entries.len(),
            es == entries.deep_view(),
            r@ == cache_text(es.take(i as int)),
        decreases entries.len() - i,
    {
        assert(es.take(i + 1).drop_last() == es.take(i as int));
        assert(es.take(i + 1).last() == es[i as int]);
        if i > 0 {
            push_str(&mut r, "\n");
        } else {
            assert(es.take(1)[0] == es[0]);
        }
        push_str(&mut r, entries[i].0.as_str());
        push_str(&mut r, "\t");
        push_str(&mut r, entries[i].1.as_str());
        i = i + 1;
    }
    assert(es.take(entries.len() as int) == es);
    r
}

// ---------------------------------------------------------------------------
// Completion candidates
// ---------------------------------------------------------------------------

/// Where `<ref>` completion candidates come from.
#[derive(Debug)]
pub enum RefsFor {
    /// The cached names; `refresh` when the cache is stale and a detached
    /// refresh should warm it.
    Ready { refs: Vec<String>, refresh: bool },
    /// No cache: fetch the remote's refs (time-bounded), falling back to the
    /// local refs when that fails.
    Fetch,
}

/// A fresh cache is served as is; a stale one is served too, with a
/// background refresh; with no cache the remote is asked.
pub fn refs_for(cached: Option<Cached>) -> (r: RefsFor)
    ensures
        match cached {
            Some(c) => r matches RefsFor::Ready { refs, refresh } && refs.deep_view() == names_of(
                c.entries.deep_view(),
            ) && refresh == !c.fresh,
            None => r is Fetch,
        },
{
    match cached {
        Some(c) => RefsFor::Ready { refs: c.refs(), refresh: !c.fresh },
        None => RefsFor::Fetch,
    }
}

/// The candidates offered: sorted, each once.
pub fn candidates(refs: &Vec<String>) -> (r: Vec<String>)
    ensures
        strictly_sorted(r.deep_view()),
        forall|x: Seq<char>| #[trigger] r.deep_view().contains(x) <==> refs.deep_view().contains(x),
{
    sorted_unique(refs)
}


/// Completion's refs when there was no cache.
#[derive(Debug)]
pub struct Fetched {
    /// The candidates offered: sorted, each once.
    pub refs: Vec<String>,
    /// The entries to write to the cache, when the remote answered.
    pub store: Option<Vec<(String, String)>>,
}

/// With no cache, completion asks the remote (time-bounded): its refs are
/// offered and written to the cache when it answered (`remote`); else the
/// refs already in the submodule's git dir are offered, from the output of
/// `git for-each-ref` (`local_out`, none when that failed too).
pub fn fetched(remote: Option<Vec<(String, String)>>, local_out: Option<String>) -> (r: Fetched)
    ensures
        strictly_sorted(r.refs.deep_view()),
        match remote {
            Some(es) => (r.store matches Some(w) && w.deep_view() == es.deep_view()) && forall|x: Seq<
                char,
            >| #[trigger] r.refs.deep_view().contains(x) <==> names_of(es.deep_view()).contains(x),
            None => r.store is None && forall|x: Seq<char>| #[trigger] r.refs.deep_view().contains(x)
                <==> (match local_out {
                Some(o) => local_names(lines(o@)).contains(x),
                None => false,
            }),
        },
{
    match remote {
        Some(es) => {
            let names = entry_names(&es);
            Fetched { refs: candidates(&names), store: Some(es) }
        },
        None => {
            let names = match &local_out {
                Some(o) => local_refs(o.as_str()),
                None => Vec::new(),
            };
            Fetched { refs: candidates(&names), store: None }
        },
    }
}

} // verus!
