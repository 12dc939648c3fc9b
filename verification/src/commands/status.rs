//! `picky status [<path>…] [--json]`: a table of each submodule's pin,
//! branch, upstream staleness, sparse state, filter, working-tree size and
//! patch count; `--json` gives the same fields as a JSON array. This module
//! builds the rows from what the caller observed on disk and renders them.

use vstd::prelude::*;

use crate::config::{effective_filter_of, opt_view, Submodule, SubmoduleView};
use crate::console::{messages_view, mv, say, Level, Message, MessageView};
use crate::refcache::{cached_sha, Cached};
use crate::text;
use crate::text::{dec, owned, prefix_upto, push_char, push_str};
use vstd::string::StringSliceAdditionalSpecFns;

verus! {

// ---------------------------------------------------------------------------
// JSON string escaping
// ---------------------------------------------------------------------------

pub open spec fn hex_char(d: nat) -> char {
    if d < 10 {
        (d + '0' as nat) as char
    } else {
        (d - 10 + 'a' as nat) as char
    }
}

/// The JSON escape of one character: the two-character escapes for `"`,
/// `\`, newline, carriage return and tab, `\u00XX` for other control
/// characters, the character itself otherwise.
pub open spec fn esc(c: char) -> Seq<char> {
    if c == '"' {
        seq!['\\', '"']
    } else if c == '\\' {
        seq!['\\', '\\']
    } else if c == '\n' {
        seq!['\\', 'n']
    } else if c == '\r' {
        seq!['\\', 'r']
    } else if c == '\t' {
        seq!['\\', 't']
    } else if (c as int) < 0x20 {
        seq!['\\', 'u', '0', '0', hex_char((c as nat) / 16), hex_char((c as nat) % 16)]
    } else {
        seq![c]
    }
}

/// The JSON escape of a string.
pub open spec fn escape(s: Seq<char>) -> Seq<char>
    decreases s.len(),
{
    if s.len() == 0 {
        Seq::empty()
    } else {
        esc(s[0]) + escape(s.drop_first())
    }
}

pub open spec fn hex_value(c: char) -> int {
    if '0' <= c <= '9' {
        c as int - '0' as int
    } else {
        c as int - 'a' as int + 10
    }
}

/// Reads JSON string content back: the inverse of [`escape`].
pub open spec fn unescape(s: Seq<char>) -> Seq<char>
    decreases s.len(),
{
    if s.len() >= 2 && s[0] == '\\' && s[1] == 'u' && s.len() >= 6 {
        seq![(hex_value(s[2]) * 4096 + hex_value(s[3]) * 256 + hex_value(s[4]) * 16 + hex_value(
            s[5],
        )) as char] + unescape(s.skip(6))
    } else if s.len() >= 2 && s[0] == '\\' {
        let c = if s[1] == 'n' {
            '\n'
        } else if s[1] == 'r' {
            '\r'
        } else if s[1] == 't' {
            '\t'
        } else {
            s[1]
        };
        seq![c] + unescape(s.skip(2))
    } else if s.len() >= 1 {
        seq![s[0]] + unescape(s.skip(1))
    } else {
        Seq::empty()
    }
}

proof fn lemma_escape_push(s: Seq<char>, c: char)
    ensures
        escape(s.push(c)) == escape(s) + esc(c),
    decreases s.len(),
{
    if s.len() == 0 {
        assert(s.push(c).drop_first() =~= Seq::<char>::empty());
        assert(s.push(c)[0] == c);
        assert(escape(Seq::<char>::empty()) == Seq::<char>::empty());
        assert(escape(s) == Seq::<char>::empty());
        assert(esc(c) + Seq::<char>::empty() =~= esc(c));
    } else {
        assert(s.push(c).drop_first() =~= s.drop_first().push(c));
        lemma_escape_push(s.drop_first(), c);
        assert(esc(s[0]) + (escape(s.drop_first()) + esc(c)) =~= (esc(s[0]) + escape(
            s.drop_first(),
        )) + esc(c));
    }
}

proof fn lemma_unescape_one(c: char, rest: Seq<char>)
    ensures
        unescape(esc(c) + rest) == seq![c] + unescape(rest),
{
    let e = esc(c);
    let s = e + rest;
    if c == '"' || c == '\\' || c == '\n' || c == '\r' || c == '\t' {
        assert(s.skip(2) =~= rest);
    } else if (c as u32) < 0x20 {
        assert(s.skip(6) =~= rest);
        let n = c as nat;
        assert(hex_value(hex_char(n / 16)) == n / 16);
        assert(hex_value(hex_char(n % 16)) == n % 16);
        assert(hex_value('0') == 0);
        assert((n / 16) * 16 + n % 16 == n);
        assert(((n / 16) * 16 + n % 16) as char == c);
    } else {
        assert(s.skip(1) =~= rest);
    }
}

/// Escaping is undone by reading the JSON string back.
pub proof fn lemma_unescape_escape(s: Seq<char>)
    ensures
        unescape(escape(s)) == s,
    decreases s.len(),
{
    if s.len() > 0 {
        lemma_unescape_escape(s.drop_first());
        lemma_unescape_one(s[0], escape(s.drop_first()));
        assert(seq![s[0]] + s.drop_first() =~= s);
    }
}

fn hex_digit(d: u32) -> (c: char)
    requires
        d < 16,
    ensures
        c == hex_char(d as nat),
{
    if d < 10 {
        ((d as u8) + 48u8) as char
    } else {
        ((d as u8) - 10 + 97u8) as char
    }
}

/// Append the JSON escape of `s` to `out`.
pub fn json_escape_into(s: &str, out: &mut String)
    ensures
        final(out)@ == old(out)@ + escape(s@),
{
    let v = text::chars_of(s);
    let ghost o0 = out@;
    let mut i: usize = 0;
    while i < v.len()
        invariant
            i <= v.len(),
            v@ == s@,
            out@ == o0 + escape(v@.take(i as int)),
        decreases v.len() - i,
    {
        let c = v[i];
        proof {
            lemma_escape_push(v@.take(i as int), c);
            assert(v@.take(i + 1) == v@.take(i as int).push(c));
        }
        let u = text::char_code(c);
        if c == '"' {
            push_char(out, '\\');
            push_char(out, '"');
        } else if c == '\\' {
            push_char(out, '\\');
            push_char(out, '\\');
        } else if c == '\n' {
            push_char(out, '\\');
            push_char(out, 'n');
        } else if c == '\r' {
            push_char(out, '\\');
            push_char(out, 'r');
        } else if c == '\t' {
            push_char(out, '\\');
            push_char(out, 't');
        } else if u < 0x20 {
            push_char(out, '\\');
            push_char(out, 'u');
            push_char(out, '0');
            push_char(out, '0');
            push_char(out, hex_digit(u / 16));
            push_char(out, hex_digit(u % 16));
        } else {
            push_char(out, c);
        }
        assert(out@ =~= o0 + escape(v@.take(i as int)) + esc(c));
        i = i + 1;
    }
    assert(v@.take(v.len() as int) == v@);
}

// ---------------------------------------------------------------------------
// Rows
// ---------------------------------------------------------------------------

/// The column headers of the table.
pub open spec fn headers() -> Seq<Seq<char>> {
    seq![
        "SUBMODULE"@,
        "PIN"@,
        "BRANCH"@,
        "UPSTREAM"@,
        "SPARSE"@,
        "FILTER"@,
        "SIZE"@,
        "PATCHES"@,
    ]
}

/// The field names of `--json`, positionally matching the headers.
pub open spec fn json_keys() -> Seq<Seq<char>> {
    seq![
        "submodule"@,
        "pin"@,
        "branch"@,
        "upstream"@,
        "sparse"@,
        "filter"@,
        "size"@,
        "patches"@,
    ]
}

fn header_cells() -> (r: [String; 8])
    ensures
        r.deep_view() == headers(),
{
    let r = [
        owned("SUBMODULE"),
        owned("PIN"),
        owned("BRANCH"),
        owned("UPSTREAM"),
        owned("SPARSE"),
        owned("FILTER"),
        owned("SIZE"),
        owned("PATCHES"),
    ];
    assert(r.deep_view() =~= headers());
    r
}

fn json_key_cells() -> (r: [String; 8])
    ensures
        r.deep_view() == json_keys(),
{
    let r = [
        owned("submodule"),
        owned("pin"),
        owned("branch"),
        owned("upstream"),
        owned("sparse"),
        owned("filter"),
        owned("size"),
        owned("patches"),
    ];
    assert(r.deep_view() =~= json_keys());
    r
}

/// What the caller observed about one submodule for its row.
#[derive(Debug)]
pub struct RowFacts {
    /// The full pinned SHA, when the superproject index has a gitlink.
    pub pin: Option<String>,
    /// Whether the working tree has a `.git`.
    pub checked_out: bool,
    /// The `du -sh` size of the working tree, when it could be measured.
    pub size: Option<String>,
    /// The number of `*.patch` files in the patch directory, when it could
    /// be read.
    pub patch_count: Option<usize>,
    /// The cached remote refs of the submodule's URL, if any.
    pub cache: Option<Cached>,
}

/// The upstream column: `-` without a tracked branch or pin, `?` without
/// cached data for the branch, `current` when the branch's cached tip is
/// the pin, else `stale→` and the tip's first eight characters.
pub open spec fn upstream_of(
    branch: Option<Seq<char>>,
    pin: Option<Seq<char>>,
    cache: Option<Seq<(Seq<char>, Seq<char>)>>,
) -> Seq<char> {
    match (branch, pin) {
        (Some(b), Some(p)) => match cache {
            None => "?"@,
            Some(entries) => match cached_sha(entries, b) {
                Some(sha) => if sha == p {
                    "current"@
                } else {
                    "stale→"@ + prefix_upto(sha, 8)
                },
                None => "?"@,
            },
        },
        _ => "-"@,
    }
}

/// The cells of one row, in header order.
pub open spec fn row_of(
    sm: SubmoduleView,
    pin: Option<Seq<char>>,
    checked_out: bool,
    size: Option<Seq<char>>,
    patch_count: Option<nat>,
    cache: Option<Seq<(Seq<char>, Seq<char>)>>,
) -> Seq<Seq<char>> {
    seq![
        sm.path,
        match pin {
            Some(p) => prefix_upto(p, 8),
            None => "-"@,
        },
        match sm.branch {
            Some(b) => b,
            None => "-"@,
        },
        upstream_of(sm.branch, pin, cache),
        if sm.sparse.len() == 0 {
            "off"@
        } else {
            "on("@ + dec(sm.sparse.len()) + ")"@
        },
        match effective_filter_of(sm.filter) {
            Some(f) => f,
            None => "none"@,
        },
        if checked_out {
            match size {
                Some(s) => s,
                None => "?"@,
            }
        } else {
            "-"@
        },
        match (sm.patches, patch_count) {
            (Some(_), Some(n)) => dec(n),
            _ => "-"@,
        },
    ]
}

pub open spec fn cache_view(c: Option<Cached>) -> Option<Seq<(Seq<char>, Seq<char>)>> {
    match c {
        Some(c) => Some(c.entries.deep_view()),
        None => None,
    }
}

pub open spec fn count_view(c: Option<usize>) -> Option<nat> {
    match c {
        Some(n) => Some(n as nat),
        None => None,
    }
}

/// The first eight characters of `s` (all of it when shorter).
fn short(s: &String) -> (r: String)
    ensures
        r@ == prefix_upto(s@, 8),
{
    let v = text::chars_of(s.as_str());
    if v.len() <= 8 {
        text::string_from(&v)
    } else {
        text::string_of(&v, 0, 8)
    }
}

/// The upstream column for a submodule.
pub fn upstream_status(sm: &Submodule, pin: &Option<String>, cache: &Option<Cached>) -> (r: String)
    ensures
        r@ == upstream_of(opt_view(sm.branch), opt_view(*pin), cache_view(*cache)),
{
    match (&sm.branch, pin) {
        (Some(b), Some(p)) => match cache {
            None => owned("?"),
            Some(c) => match c.sha(b) {
                Some(sha) => {
                    if sha == *p {
                        owned("current")
                    } else {
                        let mut t = owned("stale→");
                        let s = short(&sha);
                        push_str(&mut t, s.as_str());
                        t
                    }
                },
                None => owned("?"),
            },
        },
        _ => owned("-"),
    }
}

/// The row of one submodule, from what the caller observed.
pub fn row(sm: &Submodule, facts: &RowFacts) -> (r: [String; 8])
    ensures
        r.deep_view() == row_of(
            sm@,
            opt_view(facts.pin),
            facts.checked_out,
            opt_view(facts.size),
            count_view(facts.patch_count),
            cache_view(facts.cache),
        ),
{
    let pin = match &facts.pin {
        Some(p) => short(p),
        None => owned("-"),
    };
    let branch = match &sm.branch {
        Some(b) => b.clone(),
        None => owned("-"),
    };
    let upstream = upstream_status(sm, &facts.pin, &facts.cache);
    let sparse = if sm.sparse.len() == 0 {
        owned("off")
    } else {
        let mut t = owned("on(");
        let n = text::usize_to_string(sm.sparse.len());
        push_str(&mut t, n.as_str());
        push_str(&mut t, ")");
        t
    };
    let filter = match sm.effective_filter() {
        Some(f) => owned(f),
        None => owned("none"),
    };
    let size = if facts.checked_out {
        match &facts.size {
            Some(s) => s.clone(),
            None => owned("?"),
        }
    } else {
        owned("-")
    };
    let patches = match (&sm.patches, facts.patch_count) {
        (Some(_), Some(n)) => text::usize_to_string(n),
        _ => owned("-"),
    };
    let r = [sm.path.clone(), pin, branch, upstream, sparse, filter, size, patches];
    assert(r.deep_view() =~= row_of(
        sm@,
        opt_view(facts.pin),
        facts.checked_out,
        opt_view(facts.size),
        count_view(facts.patch_count),
        cache_view(facts.cache),
    ));
    r
}

// ---------------------------------------------------------------------------
// JSON document
// ---------------------------------------------------------------------------

/// `"key": "value"` pairs of one row, joined by `, `.
pub open spec fn json_fields(cells: Seq<Seq<char>>, n: nat) -> Seq<char>
    decreases n,
{
    if n == 0 {
        Seq::empty()
    } else {
        let prev = json_fields(cells, (n - 1) as nat);
        let sep = if n == 1 {
            Seq::<char>::empty()
        } else {
            ", "@
        };
        prev + sep + "\""@ + json_keys()[n - 1] + "\": \""@ + escape(cells[n - 1]) + "\""@
    }
}

/// The lines of the array's objects, one per row, each but the last
/// followed by a comma.
pub open spec fn json_objects(rows: Seq<Seq<Seq<char>>>, n: nat) -> Seq<char>
    decreases n,
{
    if n == 0 {
        Seq::empty()
    } else {
        json_objects(rows, (n - 1) as nat) + "  {"@ + json_fields(rows[n - 1], 8) + "}"@ + (if n
            < rows.len() {
            ","@
        } else {
            Seq::<char>::empty()
        }) + "\n"@
    }
}

/// The pretty-printed JSON array of the rows.
pub open spec fn json_doc(rows: Seq<Seq<Seq<char>>>) -> Seq<char> {
    "[\n"@ + json_objects(rows, rows.len()) + "]"@
}

/// One row as a JSON object line: `  {"submodule": …, …}`.
pub open spec fn json_object(cells: Seq<Seq<char>>) -> Seq<char> {
    "  {"@ + json_fields(cells, 8) + "}"@
}

proof fn lemma_json_objects_prefix(rows: Seq<Seq<Seq<char>>>, k: nat)
    requires
        1 <= k <= rows.len(),
    ensures
        json_objects(rows, k) == text::join(
            Seq::new(rows.len(), |i: int| json_object(rows[i])).take(k as int),
            ",\n"@,
        ) + (if k < rows.len() {
            ",\n"@
        } else {
            "\n"@
        }),
    decreases k,
{
    reveal_strlit(",\n");
    reveal_strlit(",");
    reveal_strlit("\n");
    let objs = Seq::new(rows.len(), |i: int| json_object(rows[i]));
    let c = if k < rows.len() {
        ","@
    } else {
        Seq::<char>::empty()
    };
    assert(json_objects(rows, k) == json_objects(rows, (k - 1) as nat) + "  {"@ + json_fields(
        rows[k - 1],
        8,
    ) + "}"@ + c + "\n"@);
    if k == 1 {
        assert(objs.take(1) =~= seq![objs[0]]);
        assert(json_objects(rows, 0) == Seq::<char>::empty());
        assert(json_objects(rows, k) =~= objs[0] + c + "\n"@);
    } else {
        lemma_json_objects_prefix(rows, (k - 1) as nat);
        assert(objs.take(k as int).drop_last() =~= objs.take(k - 1));
        assert(objs.take(k as int).last() == objs[k - 1]);
        assert(json_objects(rows, k) =~= text::join(objs.take(k - 1), ",\n"@) + ",\n"@ + objs[k - 1]
            + c + "\n"@);
    }
    if k < rows.len() {
        assert(c + "\n"@ =~= ",\n"@);
    } else {
        assert(c + "\n"@ =~= "\n"@);
    }
    assert(json_objects(rows, k) =~= text::join(objs.take(k as int), ",\n"@) + c + "\n"@);
}

/// The `--json` document is a JSON array of the rows: one object per row,
/// in order, each but the last followed by a comma, every object on a line
/// of its own; no rows give an empty array.
pub proof fn lemma_json_array(rows: Seq<Seq<Seq<char>>>)
    ensures
        rows.len() == 0 ==> json_doc(rows) == "[\n]"@,
        rows.len() > 0 ==> json_doc(rows) == "[\n"@ + text::join(
            Seq::new(rows.len(), |i: int| json_object(rows[i])),
            ",\n"@,
        ) + "\n]"@,
{
    reveal_strlit("[\n");
    reveal_strlit("]");
    reveal_strlit("\n]");
    reveal_strlit("\n");
    if rows.len() == 0 {
        reveal_strlit("[\n]");
        assert(json_objects(rows, 0) == Seq::<char>::empty());
        assert(json_doc(rows) =~= "[\n]"@);
    } else {
        let objs = Seq::new(rows.len(), |i: int| json_object(rows[i]));
        lemma_json_objects_prefix(rows, rows.len());
        assert(objs.take(rows.len() as int) =~= objs);
        assert(json_doc(rows) =~= "[\n"@ + text::join(objs, ",\n"@) + "\n]"@);
    }
}

pub open spec fn rows_view(rows: Seq<[String; 8]>) -> Seq<Seq<Seq<char>>> {
    Seq::new(rows.len(), |i: int| rows[i].deep_view())
}

/// Hand-rolled JSON: a pretty-printed array of `{"submodule": …, "pin": …,
/// …}` objects.
pub fn render_json(rows: &Vec<[String; 8]>) -> (out: String)
    ensures
        out@ == json_doc(rows_view(rows@)),
{
    let keys = json_key_cells();
    assert(keys.deep_view().len() == 8);
    let ghost rv = rows_view(rows@);
    let mut out = owned("[\n");
    let mut i: usize = 0;
    while i < rows.len()
        invariant
            i <= rows.len(),
            keys.deep_view() == json_keys(),
            rv == rows_view(rows@),
            out@ == "[\n"@ + json_objects(rv, i as nat),
        decreases rows.len() - i,
    {
        let row = &rows[i];
        assert(row.deep_view() == rv[i as int]);
        push_str(&mut out, "  {");
        let mut j: usize = 0;
        let ghost base = out@;
        while j < 8
            invariant
                j <= 8,
                keys.deep_view() == json_keys(),
                row.deep_view() == rv[i as int],
                out@ == base + json_fields(rv[i as int], j as nat),
            decreases 8 - j,
        {
            if j > 0 {
                push_str(&mut out, ", ");
            }
            push_str(&mut out, "\"");
            push_str(&mut out, keys[j].as_str());
            push_str(&mut out, "\": \"");
            assert(keys[j as int]@ == json_keys()[j as int]);
            json_escape_into(row[j].as_str(), &mut out);
            push_str(&mut out, "\"");
            assert(row[j as int]@ == rv[i as int][j as int]);
            proof {
                let sep = if j == 0 {
                    Seq::<char>::empty()
                } else {
                    ", "@
                };
                assert(out@ =~= base + json_fields(rv[i as int], j as nat) + sep + "\""@
                    + json_keys()[j as int] + "\": \""@ + escape(rv[i as int][j as int]) + "\""@);
            }
            j = j + 1;
        }
        push_str(&mut out, "}");
        if i + 1 < rows.len() {
            push_str(&mut out, ",");
        }
        push_str(&mut out, "\n");
        proof {
            let comma = if i + 1 < rows.len() {
                ","@
            } else {
                Seq::<char>::empty()
            };
            assert(out@ =~= "[\n"@ + json_objects(rv, i as nat) + "  {"@ + json_fields(
                rv[i as int],
                8,
            ) + "}"@ + comma + "\n"@);
        }
        i = i + 1;
    }
    push_str(&mut out, "]");
    assert(out@ =~= json_doc(rv));
    out
}


// ---------------------------------------------------------------------------
// Table
// ---------------------------------------------------------------------------

/// The width a cell claims: its UTF-8 length (`str::len`).
pub open spec fn byte_len(s: Seq<char>) -> nat {
    (vstd::utf8::encode_utf8(s).len() as usize) as nat
}

/// The width of column `c`: its widest cell, header included.
pub open spec fn col_width(rows: Seq<Seq<Seq<char>>>, c: int, n: nat) -> nat
    decreases n,
{
    if n == 0 {
        byte_len(headers()[c])
    } else {
        let w = col_width(rows, c, (n - 1) as nat);
        let l = byte_len(rows[n - 1][c]);
        if l > w {
            l
        } else {
            w
        }
    }
}

pub open spec fn widths_of(rows: Seq<Seq<Seq<char>>>) -> Seq<nat> {
    Seq::new(8, |c: int| col_width(rows, c, rows.len()))
}

/// `c` left-aligned in a field of `w` characters (`format!("{c:<w$}")`).
pub open spec fn pad(c: Seq<char>, w: nat) -> Seq<char> {
    if c.len() < w {
        c + Seq::new((w - c.len()) as nat, |i: int| ' ')
    } else {
        c
    }
}

/// The first `n` cells padded and joined by two spaces.
pub open spec fn joined(cells: Seq<Seq<char>>, ws: Seq<nat>, n: nat) -> Seq<char>
    decreases n,
{
    if n == 0 {
        Seq::empty()
    } else {
        let prev = joined(cells, ws, (n - 1) as nat);
        let sep = if n == 1 {
            Seq::<char>::empty()
        } else {
            "  "@
        };
        prev + sep + pad(cells[n - 1], ws[n - 1])
    }
}

/// One table line, trailing blanks trimmed.
pub open spec fn table_line(cells: Seq<Seq<char>>, ws: Seq<nat>) -> Seq<char> {
    text::trim_end(joined(cells, ws, 8))
}

pub open spec fn any_unknown(rows: Seq<Seq<Seq<char>>>) -> bool {
    exists|i: int| 0 <= i < rows.len() && #[trigger] rows[i][3] == "?"@
}

/// What `status` shows for the rows.
pub open spec fn status_messages(rows: Seq<Seq<Seq<char>>>, json: bool) -> Seq<MessageView> {
    if rows.len() == 0 {
        if json {
            seq![mv(Level::Plain, "[]"@)]
        } else {
            seq![mv(Level::Warn, "no submodules declared in .gitmodules"@)]
        }
    } else if json {
        seq![mv(Level::Plain, json_doc(rows))]
    } else {
        let ws = widths_of(rows);
        let body = seq![mv(Level::Heading, table_line(headers(), ws))] + Seq::new(
            rows.len(),
            |i: int| mv(Level::Plain, table_line(rows[i], ws)),
        );
        if any_unknown(rows) {
            body.push(
                mv(
                    Level::Plain,
                    "  '?' = no cached ref data yet; run `picky refresh` to check for updates"@,
                ),
            )
        } else {
            body
        }
    }
}

fn column_widths(rows: &Vec<[String; 8]>, heads: &[String; 8]) -> (ws: Vec<usize>)
    requires
        heads.deep_view() == headers(),
    ensures
        ws.len() == 8,
        forall|c: int| 0 <= c < 8 ==> #[trigger] ws[c] as nat == widths_of(rows_view(rows@))[c],
{
    let ghost rv = rows_view(rows@);
    let mut ws: Vec<usize> = Vec::new();
    let mut c: usize = 0;
    while c < 8
        invariant
            c <= 8,
            ws.len() == c,
            heads.deep_view() == headers(),
            rv == rows_view(rows@),
            forall|k: int| 0 <= k < c ==> #[trigger] ws[k] as nat == col_width(rv, k, rv.len()),
        decreases 8 - c,
    {
        assert(heads.deep_view().len() == 8);
        assert(heads[c as int]@ == headers()[c as int]);
        let mut w = heads[c].as_str().len();
        let mut i: usize = 0;
        while i < rows.len()
            invariant
                c < 8,
                i <= rows.len(),
                rv == rows_view(rows@),
                w as nat == col_width(rv, c as int, i as nat),
            decreases rows.len() - i,
        {
            assert(rows[i as int][c as int]@ == rv[i as int][c as int]);
            let l = rows[i][c].as_str().len();
            if l > w {
                w = l;
            }
            i = i + 1;
        }
        ws.push(w);
        c = c + 1;
    }
    ws
}

fn table_row(cells: &[String; 8], ws: &Vec<usize>) -> (line: String)
    requires
        ws.len() == 8,
    ensures
        line@ == table_line(cells.deep_view(), Seq::new(8, |c: int| ws[c] as nat)),
{
    let ghost wv = Seq::new(8, |c: int| ws[c] as nat);
    let mut out = String::new();
    let mut j: usize = 0;
    while j < 8
        invariant
            j <= 8,
            ws.len() == 8,
            wv == Seq::new(8, |c: int| ws[c] as nat),
            out@ == joined(cells.deep_view(), wv, j as nat),
        decreases 8 - j,
    {
        let ghost before = out@;
        if j > 0 {
            push_str(&mut out, "  ");
        }
        let ghost mid = out@;
        push_str(&mut out, cells[j].as_str());
        let n = text::chars_of(cells[j].as_str()).len();
        let w = ws[j];
        let mut k = n;
        while k < w
            invariant
                n <= k <= w || (n >= w && k == n),
                out@ == mid + cells[j as int]@ + Seq::new((k - n) as nat, |i: int| ' '),
            decreases w - k,
        {
            push_char(&mut out, ' ');
            assert(Seq::new((k + 1 - n) as nat, |i: int| ' ') =~= Seq::new(
                (k - n) as nat,
                |i: int| ' ',
            ).push(' '));
            k = k + 1;
        }
        assert(cells.deep_view()[j as int] == cells[j as int]@);
        if n >= w {
            assert(out@ =~= mid + cells[j as int]@);
        }
        assert(out@ =~= joined(cells.deep_view(), wv, j as nat) + (if j == 0 {
            Seq::<char>::empty()
        } else {
            "  "@
        }) + pad(cells.deep_view()[j as int], wv[j as int]));
        j = j + 1;
    }
    text::str_trim_end(out.as_str())
}

/// Render `status`'s output for the rows: a JSON array with `json`, else
/// the table with a hint when some upstream is unknown.
pub fn run(rows: &Vec<[String; 8]>, json: bool) -> (out: Vec<Message>)
    ensures
        messages_view(out@) == status_messages(rows_view(rows@), json),
{
    let ghost rv = rows_view(rows@);
    let mut out: Vec<Message> = Vec::new();
    if rows.len() == 0 {
        if json {
            say(&mut out, Level::Plain, owned("[]"));
        } else {
            say(&mut out, Level::Warn, owned("no submodules declared in .gitmodules"));
        }
        assert(messages_view(out@) =~= status_messages(rv, json));
        return out;
    }
    if json {
        say(&mut out, Level::Plain, render_json(rows));
        assert(messages_view(out@) =~= status_messages(rv, json));
        return out;
    }
    let heads = header_cells();
    assert(heads.deep_view().len() == 8);
    let ws = column_widths(rows, &heads);
    let ghost wv = widths_of(rv);
    assert(Seq::new(8, |c: int| ws[c] as nat) =~= wv);
    say(&mut out, Level::Heading, table_row(&heads, &ws));
    let mut unknown = false;
    let mut i: usize = 0;
    while i < rows.len()
        invariant
            i <= rows.len(),
            rv == rows_view(rows@),
            ws.len() == 8,
            Seq::new(8, |c: int| ws[c] as nat) == wv,
            messages_view(out@) == seq![mv(Level::Heading, table_line(headers(), wv))] + Seq::new(
                i as nat,
                |k: int| mv(Level::Plain, table_line(rv[k], wv)),
            ),
            unknown == exists|k: int| 0 <= k < i && #[trigger] rv[k][3] == "?"@,
        decreases rows.len() - i,
    {
        let ghost before = messages_view(out@);
        assert(rows[i as int].deep_view() == rv[i as int]);
        say(&mut out, Level::Plain, table_row(&rows[i], &ws));
        assert(messages_view(out@) =~= seq![mv(Level::Heading, table_line(headers(), wv))]
            + Seq::new((i + 1) as nat, |k: int| mv(Level::Plain, table_line(rv[k], wv))));
        assert(rows[i as int][3]@ == rv[i as int][3]);
        if text::str_eq(rows[i][3].as_str(), "?") {
            unknown = true;
        }
        i = i + 1;
    }
    if unknown {
        say(
            &mut out,
            Level::Plain,
            owned("  '?' = no cached ref data yet; run `picky refresh` to check for updates"),
        );
    }
    assert(messages_view(out@) =~= status_messages(rv, json));
    out
}
} // verus!
