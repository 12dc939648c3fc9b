//! The declarative submodule model kept in `.gitmodules`. Git's standard keys
//! live in `submodule.<name>` (`path`, `url`, `branch`, `shallow`); picky's own
//! options live in a parallel `picky.<name>` section that stock git ignores,
//! joined by the shared subsection name.
//!
//! The file is read as the NUL-separated listing that `git config -f
//! .gitmodules -z --list` prints, and written as a list of `git config`
//! calls ([`ConfigCall`]) for the caller to run in order.

use vstd::prelude::*;

use crate::text;
use crate::text::{
    chars_of, dec, index_of, find_in, owned, parse_u32, parse_u32_at, push_str, split, split_chars,
    string_of, strip_prefix, strip_suffix, u32_to_string,
};

verus! {

// ---------------------------------------------------------------------------
// The submodule model
// ---------------------------------------------------------------------------

/// One submodule as declared in `.gitmodules`.
#[derive(Debug)]
pub struct Submodule {
    /// `submodule.<name>` section name (conventionally equal to `path`).
    pub name: String,
    pub path: String,
    pub url: String,
    pub branch: Option<String>,
    pub shallow: bool,
    /// Non-cone sparse-checkout patterns; empty means a full checkout.
    pub sparse: Vec<String>,
    pub depth: Option<u32>,
    /// Partial-clone filter; `None` means the `blob:none` default, literal
    /// `none` disables filtering. See [`Submodule::effective_filter`].
    pub filter: Option<String>,
    /// Directory holding the `*.patch` overlay stack, if any.
    pub patches: Option<String>,
    /// Shell command run after the working tree is (re)materialized, if any.
    pub post_update: Option<String>,
}

/// The mathematical value of a [`Submodule`].
pub struct SubmoduleView {
    pub name: Seq<char>,
    pub path: Seq<char>,
    pub url: Seq<char>,
    pub branch: Option<Seq<char>>,
    pub shallow: bool,
    pub sparse: Seq<Seq<char>>,
    pub depth: Option<u32>,
    pub filter: Option<Seq<char>>,
    pub patches: Option<Seq<char>>,
    pub post_update: Option<Seq<char>>,
}

pub open spec fn opt_view(o: Option<String>) -> Option<Seq<char>> {
    match o {
        Some(s) => Some(s@),
        None => None,
    }
}

impl View for Submodule {
    type V = SubmoduleView;

    open spec fn view(&self) -> SubmoduleView {
        SubmoduleView {
            name: self.name@,
            path: self.path@,
            url: self.url@,
            branch: opt_view(self.branch),
            shallow: self.shallow,
            sparse: self.sparse.deep_view(),
            depth: self.depth,
            filter: opt_view(self.filter),
            patches: opt_view(self.patches),
            post_update: opt_view(self.post_update),
        }
    }
}

/// The filter to fetch with: an explicit value, or the `blob:none` default;
/// a configured literal `none` disables filtering.
pub open spec fn effective_filter_of(filter: Option<Seq<char>>) -> Option<Seq<char>> {
    match filter {
        None => Some("blob:none"@),
        Some(f) => if f == "none"@ {
            None
        } else {
            Some(f)
        },
    }
}

/// Shallow fetch depth: explicit `depth`, else 1 when `shallow`.
pub open spec fn effective_depth_of(depth: Option<u32>, shallow: bool) -> Option<u32> {
    match depth {
        Some(d) => Some(d),
        None => if shallow {
            Some(1)
        } else {
            None
        },
    }
}

pub fn opt_clone(o: &Option<String>) -> (r: Option<String>)
    ensures
        opt_view(r) == opt_view(*o),
{
    match o {
        Some(s) => Some(s.clone()),
        None => None,
    }
}

pub fn strings_clone(v: &Vec<String>) -> (r: Vec<String>)
    ensures
        r.deep_view() == v.deep_view(),
{
    let mut r: Vec<String> = Vec::new();
    let mut i: usize = 0;
    while i < v.len()
        invariant
            i <= v.len(),
            r.deep_view() == v.deep_view().take(i as int),
        decreases v.len() - i,
    {
        let ghost before = r.deep_view();
        r.push(v[i].clone());
        assert(r.deep_view() =~= before.push(v[i as int]@));
        assert(v.deep_view().take(i + 1) =~= v.deep_view().take(i as int).push(v[i as int]@));
        i = i + 1;
    }
    assert(v.deep_view().take(v.len() as int) =~= v.deep_view());
    r
}

impl Submodule {
    /// The filter to fetch with: an explicit value, or the `blob:none`
    /// default. A configured literal `none` disables filtering entirely.
    pub fn effective_filter(&self) -> (r: Option<&str>)
        ensures
            match r {
                Some(f) => effective_filter_of(self@.filter) == Some(f@),
                None => effective_filter_of(self@.filter) is None,
            },
    {
        match &self.filter {
            None => Some("blob:none"),
            Some(f) => {
                if text::str_eq(f.as_str(), "none") {
                    None
                } else {
                    Some(f.as_str())
                }
            },
        }
    }

    /// Shallow fetch depth: explicit `depth`, else 1 when `shallow = true`.
    pub fn effective_depth(&self) -> (r: Option<u32>)
        ensures
            r == effective_depth_of(self.depth, self.shallow),
    {
        match self.depth {
            Some(d) => Some(d),
            None => if self.shallow {
                Some(1)
            } else {
                None
            },
        }
    }

    /// A copy with the same view.
    pub fn duplicate(&self) -> (r: Submodule)
        ensures
            r@ == self@,
    {
        Submodule {
            name: self.name.clone(),
            path: self.path.clone(),
            url: self.url.clone(),
            branch: opt_clone(&self.branch),
            shallow: self.shallow,
            sparse: strings_clone(&self.sparse),
            depth: self.depth,
            filter: opt_clone(&self.filter),
            patches: opt_clone(&self.patches),
            post_update: opt_clone(&self.post_update),
        }
    }
}

// ---------------------------------------------------------------------------
// Reading: the `-z --list` listing
// ---------------------------------------------------------------------------

/// One listing entry: text up to the first newline is the key, the rest the
/// value; an entry with no newline is a key without a value.
pub open spec fn entry_of(p: Seq<char>) -> (Seq<char>, Seq<char>) {
    match index_of(p, '\n') {
        Some(i) => (p.take(i as int), p.skip(i as int + 1)),
        None => (p, Seq::<char>::empty()),
    }
}

/// The entries of the NUL-separated pieces `ps`, skipping empty pieces.
pub open spec fn entries_of(ps: Seq<Seq<char>>) -> Seq<(Seq<char>, Seq<char>)>
    decreases ps.len(),
{
    if ps.len() == 0 {
        Seq::empty()
    } else {
        let prev = entries_of(ps.drop_last());
        if ps.last().len() == 0 {
            prev
        } else {
            prev.push(entry_of(ps.last()))
        }
    }
}

/// The entries of a `git config -z --list` listing.
pub open spec fn parse_listing(s: Seq<char>) -> Seq<(Seq<char>, Seq<char>)> {
    entries_of(split(s, '\0'))
}

/// Every value of `key` in `es`, in file order.
pub open spec fn values_of(es: Seq<(Seq<char>, Seq<char>)>, key: Seq<char>) -> Seq<Seq<char>>
    decreases es.len(),
{
    if es.len() == 0 {
        Seq::empty()
    } else {
        let prev = values_of(es.drop_last(), key);
        if es.last().0 == key {
            prev.push(es.last().1)
        } else {
            prev
        }
    }
}

/// The effective value of a key: the last one (`git config --get`).
pub open spec fn last_value(vs: Seq<Seq<char>>) -> Option<Seq<char>> {
    if vs.len() == 0 {
        None
    } else {
        Some(vs.last())
    }
}

/// A key's values as a function of the key.
pub open spec fn lookup_of(es: Seq<(Seq<char>, Seq<char>)>) -> spec_fn(Seq<char>) -> Seq<
    Seq<char>,
> {
    |k: Seq<char>| values_of(es, k)
}

/// `section.sub.var`.
pub open spec fn key_of(section: Seq<char>, sub: Seq<char>, var: Seq<char>) -> Seq<char> {
    section + "."@ + sub + "."@ + var
}

pub open spec fn sub_key(name: Seq<char>, var: Seq<char>) -> Seq<char> {
    key_of("submodule"@, name, var)
}

pub open spec fn own_key(name: Seq<char>, var: Seq<char>) -> Seq<char> {
    key_of("picky"@, name, var)
}

/// The submodule `name` as the values `vals` declare it.
pub open spec fn load_from(vals: spec_fn(Seq<char>) -> Seq<Seq<char>>, name: Seq<char>) -> SubmoduleView {
    SubmoduleView {
        name: name,
        path: match last_value(vals(sub_key(name, "path"@))) {
            Some(p) => p,
            None => name,
        },
        url: match last_value(vals(sub_key(name, "url"@))) {
            Some(u) => u,
            None => Seq::empty(),
        },
        branch: last_value(vals(sub_key(name, "branch"@))),
        shallow: last_value(vals(sub_key(name, "shallow"@))) == Some("true"@),
        sparse: vals(own_key(name, "sparse"@)),
        depth: match last_value(vals(own_key(name, "depth"@))) {
            Some(d) => parse_u32(d),
            None => None,
        },
        filter: last_value(vals(own_key(name, "filter"@))),
        patches: last_value(vals(own_key(name, "patches"@))),
        post_update: last_value(vals(own_key(name, "postupdate"@))),
    }
}

/// The section name of a `submodule.<name>.path` key.
pub open spec fn path_name(key: Seq<char>) -> Option<Seq<char>> {
    text::strip_both(key, "submodule."@, ".path"@)
}

/// Every name with a `submodule.<name>.path` entry, in file order.
pub open spec fn names_of(es: Seq<(Seq<char>, Seq<char>)>) -> Seq<Seq<char>>
    decreases es.len(),
{
    if es.len() == 0 {
        Seq::empty()
    } else {
        let prev = names_of(es.drop_last());
        match path_name(es.last().0) {
            Some(n) => prev.push(n),
            None => prev,
        }
    }
}

/// Whether `sm` is the submodule that `needle` names, by section name or path.
pub open spec fn matches_needle(sm: SubmoduleView, needle: Seq<char>) -> bool {
    sm.name == needle || sm.path == needle
}

/// The position of the first of `ns` whose submodule `needle` names.
pub open spec fn first_match(
    es: Seq<(Seq<char>, Seq<char>)>,
    ns: Seq<Seq<char>>,
    needle: Seq<char>,
) -> Option<nat>
    decreases ns.len(),
{
    if ns.len() == 0 {
        None
    } else if matches_needle(load_from(lookup_of(es), ns[0]), needle) {
        Some(0)
    } else {
        match first_match(es, ns.drop_first(), needle) {
            Some(i) => Some(i + 1),
            None => None,
        }
    }
}

/// The parsed content of `.gitmodules`.
#[derive(Debug)]
pub struct GitConfig {
    pub entries: Vec<(String, String)>,
}

impl View for GitConfig {
    type V = Seq<(Seq<char>, Seq<char>)>;

    open spec fn view(&self) -> Seq<(Seq<char>, Seq<char>)> {
        self.entries.deep_view()
    }
}

/// Why a submodule lookup failed.
#[derive(Debug)]
pub enum ConfigError {
    /// No submodule has this section name or path.
    NoMatch(String),
    /// `.gitmodules` declares no submodule.
    NoneDeclared,
    /// More than one submodule is declared, so a path is needed.
    Multiple,
}

impl ConfigError {
    /// The message shown to the user, as text.
    pub open spec fn message_of(&self) -> Seq<char> {
        match self {
            ConfigError::NoMatch(needle) => "no submodule matching '"@ + needle@ + "' in .gitmodules"@,
            ConfigError::NoneDeclared => "no submodules declared in .gitmodules"@,
            ConfigError::Multiple => "multiple submodules declared — specify a path"@,
        }
    }

    /// The message shown to the user.
    pub fn message(&self) -> (m: String)
        ensures
            m@ == self.message_of(),
    {
        match self {
            ConfigError::NoMatch(needle) => {
                let mut m = owned("no submodule matching '");
                push_str(&mut m, needle.as_str());
                push_str(&mut m, "' in .gitmodules");
                m
            },
            ConfigError::NoneDeclared => owned("no submodules declared in .gitmodules"),
            ConfigError::Multiple => owned("multiple submodules declared — specify a path"),
        }
    }
}

/// `section.sub.var` as a `String`.
pub fn flat_key(section: &str, sub: &str, var: &str) -> (k: String)
    ensures
        k@ == key_of(section@, sub@, var@),
{
    let mut k = owned(section);
    push_str(&mut k, ".");
    push_str(&mut k, sub);
    push_str(&mut k, ".");
    push_str(&mut k, var);
    k
}

/// The entry that one listing piece `v[lo..hi]` holds.
fn entry_at(v: &Vec<char>, lo: usize, hi: usize) -> (e: (String, String))
    requires
        lo <= hi <= v.len(),
    ensures
        e.0@ == entry_of(v@.subrange(lo as int, hi as int)).0,
        e.1@ == entry_of(v@.subrange(lo as int, hi as int)).1,
{
    let ghost p = v@.subrange(lo as int, hi as int);
    match find_in(v, lo, hi, '\n') {
        Some(i) => {
            assert(p.take(i as int) == v@.subrange(lo as int, lo + i));
            assert(p.skip(i + 1) == v@.subrange(lo + i + 1, hi as int));
            (string_of(v, lo, lo + i), string_of(v, lo + i + 1, hi))
        },
        None => (string_of(v, lo, hi), String::new()),
    }
}

impl GitConfig {
    /// A configuration with no entries (no `.gitmodules`).
    pub fn empty() -> (c: GitConfig)
        ensures
            c@ == Seq::<(Seq<char>, Seq<char>)>::empty(),
    {
        let c = GitConfig { entries: Vec::new() };
        assert(c@ =~= Seq::<(Seq<char>, Seq<char>)>::empty());
        c
    }

    /// Parse the output of `git config -f .gitmodules -z --list`.
    pub fn parse(listing: &str) -> (c: GitConfig)
        ensures
            c@ == parse_listing(listing@),
    {
        let v = chars_of(listing);
        let pieces = split_chars(&v, '\0');
        let ghost ps = split(v@, '\0');
        let mut entries: Vec<(String, String)> = Vec::new();
        let mut i: usize = 0;
        while i < pieces.len()
            invariant
                pieces.deep_view() == ps,
                i <= pieces.len(),
                entries.deep_view() == entries_of(ps.take(i as int)),
            decreases pieces.len() - i,
        {
            let piece = &pieces[i];
            assert(piece@ == ps[i as int]);
            assert(ps.take(i + 1).drop_last() == ps.take(i as int));
            assert(ps.take(i + 1).last() == ps[i as int]);
            if piece.len() > 0 {
                let e = entry_at(piece, 0, piece.len());
                assert(piece@.subrange(0, piece@.len() as int) == piece@);
                let ghost before = entries.deep_view();
                let ghost ev = (e.0@, e.1@);
                assert(e.deep_view() == ev);
                entries.push(e);
                assert(entries.deep_view() =~= before.push(ev));
            }
            i = i + 1;
        }
        assert(ps.take(pieces.len() as int) == ps);
        GitConfig { entries }
    }

    /// Every value of `key`, in file order (`git config --get-all`).
    pub fn get_all(&self, key: &String) -> (r: Vec<String>)
        ensures
            r.deep_view() == values_of(self@, key@),
    {
        let mut r: Vec<String> = Vec::new();
        let mut i: usize = 0;
        while i < self.entries.len()
            invariant
                i <= self.entries.len(),
                r.deep_view() == values_of(self@.take(i as int), key@),
            decreases self.entries.len() - i,
        {
            assert(self@.take(i + 1).drop_last() == self@.take(i as int));
            assert(self@.take(i + 1).last() == self@[i as int]);
            let e = &self.entries[i];
            assert(self@[i as int] == (e.0@, e.1@));
            if e.0 == *key {
                let ghost before = r.deep_view();
                r.push(e.1.clone());
                assert(r.deep_view() =~= before.push(e.1@));
            }
            i = i + 1;
        }
        assert(self@.take(self.entries.len() as int) == self@);
        r
    }

    /// The last value of `key` (`git config --get`).
    pub fn get(&self, key: &String) -> (r: Option<String>)
        ensures
            opt_view(r) == last_value(values_of(self@, key@)),
    {
        let mut all = self.get_all(key);
        let n = all.len();
        if n == 0 {
            None
        } else {
            let ghost dv = all.deep_view();
            let last = all.pop();
            match last {
                Some(s) => {
                    assert(s@ == dv.last());
                    Some(s)
                },
                None => None,
            }
        }
    }

    /// The declared `name`'s value for `var` in section `section`.
    fn get_var(&self, section: &str, name: &String, var: &str) -> (r: Option<String>)
        ensures
            opt_view(r) == last_value(values_of(self@, key_of(section@, name@, var@))),
    {
        let k = flat_key(section, name.as_str(), var);
        self.get(&k)
    }
}

/// All `submodule.<name>` section names that declare a `path`, in file
/// order.
pub fn names(cfg: &GitConfig) -> (r: Vec<String>)
    ensures
        r.deep_view() == names_of(cfg@),
{
    let pre = chars_of("submodule.");
    let suf = chars_of(".path");
    let mut r: Vec<String> = Vec::new();
    let mut i: usize = 0;
    while i < cfg.entries.len()
        invariant
            i <= cfg.entries.len(),
            pre@ == "submodule."@,
            suf@ == ".path"@,
            r.deep_view() == names_of(cfg@.take(i as int)),
        decreases cfg.entries.len() - i,
    {
        assert(cfg@.take(i + 1).drop_last() == cfg@.take(i as int));
        assert(cfg@.take(i + 1).last() == cfg@[i as int]);
        let e = &cfg.entries[i];
        assert(cfg@[i as int].0 == e.0@);
        let k = chars_of(e.0.as_str());
        match text::strip_affixes(&k, &pre, &suf) {
            Some(n) => {
                let ghost before = r.deep_view();
                r.push(n);
                assert(r.deep_view() =~= before.push(path_name(e.0@)->0));
            },
            None => {},
        }
        i = i + 1;
    }
    assert(cfg@.take(cfg.entries.len() as int) == cfg@);
    r
}

/// Read a single submodule's full configuration: git's keys from
/// `submodule.<name>.*`, picky's keys from `picky.<name>.*`.
pub fn load(cfg: &GitConfig, name: &String) -> (sm: Submodule)
    ensures
        sm@ == load_from(lookup_of(cfg@), name@),
{
    let path = match cfg.get_var("submodule", name, "path") {
        Some(p) => p,
        None => name.clone(),
    };
    let url = match cfg.get_var("submodule", name, "url") {
        Some(u) => u,
        None => String::new(),
    };
    let branch = cfg.get_var("submodule", name, "branch");
    let shallow = match cfg.get_var("submodule", name, "shallow") {
        Some(s) => text::str_eq(s.as_str(), "true"),
        None => false,
    };
    let sparse_key = flat_key("picky", name.as_str(), "sparse");
    let sparse = cfg.get_all(&sparse_key);
    let depth = match cfg.get_var("picky", name, "depth") {
        Some(d) => {
            let dv = chars_of(d.as_str());
            let r = parse_u32_at(&dv, 0, dv.len());
            assert(dv@.subrange(0, dv@.len() as int) == dv@);
            r
        },
        None => None,
    };
    let filter = cfg.get_var("picky", name, "filter");
    let patches = cfg.get_var("picky", name, "patches");
    let post_update = cfg.get_var("picky", name, "postupdate");
    Submodule {
        name: name.clone(),
        path,
        url,
        branch,
        shallow,
        sparse,
        depth,
        filter,
        patches,
        post_update,
    }
}

/// Every submodule declared in `.gitmodules`, in declaration order.
pub fn load_all(cfg: &GitConfig) -> (r: Vec<Submodule>)
    ensures
        r.len() == names_of(cfg@).len(),
        forall|i: int|
            0 <= i < r.len() ==> #[trigger] r[i]@ == load_from(lookup_of(cfg@), names_of(cfg@)[i]),
{
    let ns = names(cfg);
    let mut r: Vec<Submodule> = Vec::new();
    let mut i: usize = 0;
    while i < ns.len()
        invariant
            ns.deep_view() == names_of(cfg@),
            i <= ns.len(),
            r.len() == i,
            forall|j: int|
                0 <= j < i ==> #[trigger] r[j]@ == load_from(lookup_of(cfg@), names_of(cfg@)[j]),
        decreases ns.len() - i,
    {
        assert(ns[i as int]@ == names_of(cfg@)[i as int]);
        r.push(load(cfg, &ns[i]));
        i = i + 1;
    }
    r
}

/// Find the submodule whose section name or `path` matches `needle`.
pub fn find(cfg: &GitConfig, needle: &str) -> (r: Result<Submodule, ConfigError>)
    ensures
        match first_match(cfg@, names_of(cfg@), needle@) {
            Some(i) => r matches Ok(sm) && sm@ == load_from(lookup_of(cfg@), names_of(cfg@)[i as int]),
            None => r matches Err(ConfigError::NoMatch(n)) && n@ == needle@,
        },
{
    let ns = names(cfg);
    let ghost all = names_of(cfg@);
    assert(all.skip(0) == all);
    let mut i: usize = 0;
    while i < ns.len()
        invariant
            ns.deep_view() == all,
            all == names_of(cfg@),
            i <= ns.len(),
            first_match(cfg@, all, needle@) == match first_match(cfg@, all.skip(i as int), needle@) {
                Some(j) => Some((j + i) as nat),
                None => None::<nat>,
            },
        decreases ns.len() - i,
    {
        assert(all.skip(i as int)[0] == all[i as int]);
        assert(all.skip(i as int).drop_first() == all.skip(i + 1));
        assert(ns[i as int]@ == all[i as int]);
        let sm = load(cfg, &ns[i]);
        if text::str_eq(sm.name.as_str(), needle) || text::str_eq(sm.path.as_str(), needle) {
            return Ok(sm);
        }
        i = i + 1;
    }
    assert(all.skip(ns.len() as int).len() == 0);
    Err(ConfigError::NoMatch(owned(needle)))
}

/// The lone submodule, an error when there is not exactly one (used when a
/// command's path argument is omitted).
pub fn only(cfg: &GitConfig) -> (r: Result<Submodule, ConfigError>)
    ensures
        names_of(cfg@).len() == 1 ==> (r matches Ok(sm) && sm@ == load_from(
            lookup_of(cfg@),
            names_of(cfg@)[0],
        )),
        names_of(cfg@).len() == 0 ==> r matches Err(ConfigError::NoneDeclared),
        names_of(cfg@).len() > 1 ==> r matches Err(ConfigError::Multiple),
{
    let mut all = load_all(cfg);
    if all.len() == 1 {
        Ok(all.remove(0))
    } else if all.len() == 0 {
        Err(ConfigError::NoneDeclared)
    } else {
        Err(ConfigError::Multiple)
    }
}


/// The submodule that `needle` names, if any.
pub open spec fn find_of(es: Seq<(Seq<char>, Seq<char>)>, needle: Seq<char>) -> Option<SubmoduleView> {
    match first_match(es, names_of(es), needle) {
        Some(i) => Some(load_from(lookup_of(es), names_of(es)[i as int])),
        None => None,
    }
}

/// The position of the first of `paths` that names no submodule.
pub open spec fn first_unknown(es: Seq<(Seq<char>, Seq<char>)>, paths: Seq<Seq<char>>) -> Option<nat>
    decreases paths.len(),
{
    if paths.len() == 0 {
        None
    } else if find_of(es, paths[0]) is None {
        Some(0)
    } else {
        match first_unknown(es, paths.drop_first()) {
            Some(i) => Some(i + 1),
            None => None,
        }
    }
}

/// The submodules a command acts on: every declared one when `paths` is
/// empty, else the one each path names, in order; the first path that
/// names none is the error.
pub fn select(cfg: &GitConfig, paths: &Vec<String>) -> (r: Result<Vec<Submodule>, ConfigError>)
    ensures
        paths.len() == 0 ==> (r matches Ok(v) && v.len() == names_of(cfg@).len() && forall|i: int|
            0 <= i < v.len() ==> #[trigger] v[i]@ == load_from(lookup_of(cfg@), names_of(cfg@)[i])),
        paths.len() > 0 ==> match first_unknown(cfg@, paths.deep_view()) {
            None => r matches Ok(v) && v.len() == paths.len() && forall|i: int|
                0 <= i < v.len() ==> Some(#[trigger] v[i]@) == find_of(cfg@, paths[i]@),
            Some(k) => r matches Err(ConfigError::NoMatch(n)) && n@ == paths[k as int]@,
        },
{
    if paths.len() == 0 {
        return Ok(load_all(cfg));
    }
    let ghost ps = paths.deep_view();
    assert(ps.skip(0) == ps);
    let mut v: Vec<Submodule> = Vec::new();
    let mut i: usize = 0;
    while i < paths.len()
        invariant
            ps == paths.deep_view(),
            i <= paths.len(),
            v.len() == i,
            forall|j: int| 0 <= j < i ==> Some(#[trigger] v[j]@) == find_of(cfg@, paths[j]@),
            first_unknown(cfg@, ps) == match first_unknown(cfg@, ps.skip(i as int)) {
                Some(j) => Some((j + i) as nat),
                None => None::<nat>,
            },
        decreases paths.len() - i,
    {
        assert(ps.skip(i as int)[0] == paths[i as int]@);
        assert(ps.skip(i as int).drop_first() == ps.skip(i + 1));
        match find(cfg, paths[i].as_str()) {
            Ok(sm) => {
                v.push(sm);
            },
            Err(e) => {
                return Err(e);
            },
        }
        i = i + 1;
    }
    assert(ps.skip(paths.len() as int).len() == 0);
    Ok(v)
}

// ---------------------------------------------------------------------------
// Sections
// ---------------------------------------------------------------------------

/// The index of the last `c` in `s`, if any.
pub open spec fn last_index_of(s: Seq<char>, c: char) -> Option<nat>
    decreases s.len(),
{
    if s.len() == 0 {
        None
    } else if s.last() == c {
        Some((s.len() - 1) as nat)
    } else {
        last_index_of(s.drop_last(), c)
    }
}

/// The subsection of `key` when it lies in section `section`.
pub open spec fn subsection_of(key: Seq<char>, section: Seq<char>) -> Option<Seq<char>> {
    match strip_prefix(key, section + "."@) {
        Some(rest) => match last_index_of(rest, '.') {
            Some(j) => Some(rest.take(j as int)),
            None => None,
        },
        None => None,
    }
}

/// The distinct subsections of `section` in `es`, in order of first
/// appearance.
pub open spec fn sections_of(es: Seq<(Seq<char>, Seq<char>)>, section: Seq<char>) -> Seq<Seq<char>>
    decreases es.len(),
{
    if es.len() == 0 {
        Seq::empty()
    } else {
        let prev = sections_of(es.drop_last(), section);
        match subsection_of(es.last().0, section) {
            Some(n) => if prev.contains(n) {
                prev
            } else {
                prev.push(n)
            },
            None => prev,
        }
    }
}

pub proof fn lemma_last_index_bound(s: Seq<char>, c: char)
    ensures
        last_index_of(s, c) matches Some(j) ==> j < s.len() && s[j as int] == c,
    decreases s.len(),
{
    if s.len() > 0 && s.last() != c {
        lemma_last_index_bound(s.drop_last(), c);
    }
}

fn last_index_in(v: &Vec<char>, lo: usize, c: char) -> (r: Option<usize>)
    requires
        lo <= v.len(),
    ensures
        r matches Some(x) ==> lo <= x < v.len() && last_index_of(
            v@.subrange(lo as int, v.len() as int),
            c,
        ) == Some((x - lo) as nat),
        r is None ==> last_index_of(v@.subrange(lo as int, v.len() as int), c) is None,
{
    let mut hi = v.len();
    while hi > lo
        invariant
            lo <= hi <= v.len(),
            last_index_of(v@.subrange(lo as int, v.len() as int), c) == last_index_of(
                v@.subrange(lo as int, hi as int),
                c,
            ),
        decreases hi - lo,
    {
        let ghost cur = v@.subrange(lo as int, hi as int);
        assert(cur.drop_last() == v@.subrange(lo as int, hi - 1));
        proof {
            lemma_last_index_bound(v@.subrange(lo as int, v.len() as int), c);
        }
        if v[hi - 1] == c {
            assert(cur.last() == c);
            return Some(hi - 1);
        }
        hi = hi - 1;
    }
    None
}

fn contains_string(v: &Vec<String>, s: &String) -> (r: bool)
    ensures
        r == v.deep_view().contains(s@),
{
    let mut i: usize = 0;
    while i < v.len()
        invariant
            i <= v.len(),
            forall|j: int| 0 <= j < i ==> v.deep_view()[j] != s@,
        decreases v.len() - i,
    {
        if v[i] == *s {
            assert(v.deep_view()[i as int] == s@);
            return true;
        }
        i = i + 1;
    }
    false
}

/// The distinct subsection names of `section` (e.g. `submodule` or
/// `picky`) in `.gitmodules`, in order of first appearance.
pub fn section_names(cfg: &GitConfig, section: &str) -> (r: Vec<String>)
    ensures
        r.deep_view() == sections_of(cfg@, section@),
{
    let mut pre_s = owned(section);
    push_str(&mut pre_s, ".");
    let pre = chars_of(pre_s.as_str());
    let mut r: Vec<String> = Vec::new();
    let mut i: usize = 0;
    while i < cfg.entries.len()
        invariant
            i <= cfg.entries.len(),
            pre@ == section@ + "."@,
            r.deep_view() == sections_of(cfg@.take(i as int), section@),
        decreases cfg.entries.len() - i,
    {
        assert(cfg@.take(i + 1).drop_last() == cfg@.take(i as int));
        assert(cfg@.take(i + 1).last() == cfg@[i as int]);
        let e = &cfg.entries[i];
        assert(cfg@[i as int].0 == e.0@);
        let k = chars_of(e.0.as_str());
        assert(k@.subrange(0, k@.len() as int) == k@);
        let ghost prev = r.deep_view();
        assert(prev == sections_of(cfg@.take(i as int), section@));
        if text::has_prefix_at(&k, 0, &pre) {
            let lo = pre.len();
            let ghost rest = k@.subrange(lo as int, k@.len() as int);
            assert(strip_prefix(e.0@, section@ + "."@) == Some(rest));
            match last_index_in(&k, lo, '.') {
                Some(j) => {
                    assert(last_index_of(rest, '.') == Some((j - lo) as nat));
                    assert(rest.take(j - lo) == k@.subrange(lo as int, j as int));
                    let n = string_of(&k, lo, j);
                    assert(subsection_of(e.0@, section@) == Some(n@));
                    if !contains_string(&r, &n) {
                        r.push(n);
                        assert(r.deep_view() =~= prev.push(n@));
                    }
                },
                None => {
                    assert(subsection_of(e.0@, section@) is None);
                },
            }
        } else {
            assert(subsection_of(e.0@, section@) is None);
        }
        i = i + 1;
    }
    assert(cfg@.take(cfg.entries.len() as int) == cfg@);
    r
}

// ---------------------------------------------------------------------------
// Writing: `git config` calls
// ---------------------------------------------------------------------------

/// A configuration key `section.sub.var`.
#[derive(Debug)]
pub struct ConfigKey {
    pub section: String,
    pub sub: String,
    pub var: String,
}

/// One `git config -f .gitmodules` invocation.
#[derive(Debug)]
pub enum ConfigCall {
    /// `git config --replace-all <key> <value>`: the key's one value
    /// afterwards, however many it held.
    SetValue(ConfigKey, String),
    /// `git config --unset-all <key>`; its failure because there is no such
    /// key is ignored.
    UnsetAll(ConfigKey),
    /// `git config --add <key> <value>`.
    Add(ConfigKey, String),
    /// `git config --remove-section <section>.<sub>`; its failure (no such
    /// section) is ignored.
    RemoveSection(String, String),
}

pub struct KeyView {
    pub section: Seq<char>,
    pub sub: Seq<char>,
    pub var: Seq<char>,
}

pub enum CallView {
    SetValue(KeyView, Seq<char>),
    UnsetAll(KeyView),
    Add(KeyView, Seq<char>),
    RemoveSection(Seq<char>, Seq<char>),
}

impl View for ConfigKey {
    type V = KeyView;

    open spec fn view(&self) -> KeyView {
        KeyView { section: self.section@, sub: self.sub@, var: self.var@ }
    }
}

impl View for ConfigCall {
    type V = CallView;

    open spec fn view(&self) -> CallView {
        match self {
            ConfigCall::SetValue(k, v) => CallView::SetValue(k@, v@),
            ConfigCall::UnsetAll(k) => CallView::UnsetAll(k@),
            ConfigCall::Add(k, v) => CallView::Add(k@, v@),
            ConfigCall::RemoveSection(s, n) => CallView::RemoveSection(s@, n@),
        }
    }
}

pub open spec fn calls_view(v: Seq<ConfigCall>) -> Seq<CallView> {
    Seq::new(v.len(), |i: int| v[i]@)
}

pub open spec fn kv(section: Seq<char>, sub: Seq<char>, var: Seq<char>) -> KeyView {
    KeyView { section, sub, var }
}

/// The calls that replace `name`'s sparse list by `patterns`.
pub open spec fn sparse_calls(name: Seq<char>, patterns: Seq<Seq<char>>) -> Seq<CallView> {
    seq![CallView::UnsetAll(kv("picky"@, name, "sparse"@))] + Seq::new(
        patterns.len(),
        |i: int| CallView::Add(kv("picky"@, name, "sparse"@), patterns[i]),
    )
}

/// Set `key` to `value` when there is one, else remove it.
pub open spec fn set_or_unset(key: KeyView, value: Option<Seq<char>>) -> CallView {
    match value {
        Some(v) => CallView::SetValue(key, v),
        None => CallView::UnsetAll(key),
    }
}

/// The calls that record `sm` under its name: each key is set to the new
/// value or removed, so a rewrite converges to exactly `sm`.
pub open spec fn write_calls(sm: SubmoduleView) -> Seq<CallView> {
    let n = sm.name;
    seq![
        CallView::SetValue(kv("submodule"@, n, "path"@), sm.path),
        CallView::SetValue(kv("submodule"@, n, "url"@), sm.url),
        set_or_unset(kv("submodule"@, n, "branch"@), sm.branch),
        set_or_unset(kv("submodule"@, n, "shallow"@), if sm.shallow {
            Some("true"@)
        } else {
            None
        }),
        set_or_unset(kv("picky"@, n, "depth"@), match sm.depth {
            Some(d) => Some(dec(d as nat)),
            None => None,
        }),
        set_or_unset(kv("picky"@, n, "filter"@), sm.filter),
        set_or_unset(kv("picky"@, n, "patches"@), sm.patches),
        set_or_unset(kv("picky"@, n, "postUpdate"@), sm.post_update),
    ] + sparse_calls(n, sm.sparse)
}

/// The calls that strip `name`'s sections.
pub open spec fn remove_calls(name: Seq<char>) -> Seq<CallView> {
    seq![CallView::RemoveSection("submodule"@, name), CallView::RemoveSection("picky"@, name)]
}

fn key(section: &str, sub: &String, var: &str) -> (k: ConfigKey)
    ensures
        k@ == kv(section@, sub@, var@),
{
    ConfigKey { section: owned(section), sub: sub.clone(), var: owned(var) }
}

fn set_or_unset_call(k: ConfigKey, value: Option<String>) -> (c: ConfigCall)
    ensures
        c@ == set_or_unset(k@, opt_view(value)),
{
    match value {
        Some(v) => ConfigCall::SetValue(k, v),
        None => ConfigCall::UnsetAll(k),
    }
}

fn push_call(v: &mut Vec<ConfigCall>, c: ConfigCall)
    ensures
        calls_view(final(v)@) == calls_view(old(v)@).push(c@),
{
    let ghost cv = c@;
    v.push(c);
    assert(calls_view(v@) =~= calls_view(old(v)@).push(cv));
}

/// Replace the multivalued `picky.<name>.sparse` list: clear the existing
/// values and re-add `patterns` verbatim, so removal is by exact value (no
/// `git config --unset` regex reading of patterns like `/extension/*.cmake`).
pub fn set_sparse(name: &String, patterns: &Vec<String>) -> (r: Vec<ConfigCall>)
    ensures
        calls_view(r@) == sparse_calls(name@, patterns.deep_view()),
{
    let mut r: Vec<ConfigCall> = Vec::new();
    push_call(&mut r, ConfigCall::UnsetAll(key("picky", name, "sparse")));
    let ghost head = seq![CallView::UnsetAll(kv("picky"@, name@, "sparse"@))];
    assert(calls_view(r@) =~= head);
    let mut i: usize = 0;
    while i < patterns.len()
        invariant
            i <= patterns.len(),
            head == seq![CallView::UnsetAll(kv("picky"@, name@, "sparse"@))],
            calls_view(r@) == head + Seq::new(
                i as nat,
                |j: int| CallView::Add(kv("picky"@, name@, "sparse"@), patterns.deep_view()[j]),
            ),
        decreases patterns.len() - i,
    {
        push_call(&mut r, ConfigCall::Add(key("picky", name, "sparse"), patterns[i].clone()));
        assert(head + Seq::new(
            (i + 1) as nat,
            |j: int| CallView::Add(kv("picky"@, name@, "sparse"@), patterns.deep_view()[j]),
        ) =~= (head + Seq::new(
            i as nat,
            |j: int| CallView::Add(kv("picky"@, name@, "sparse"@), patterns.deep_view()[j]),
        )).push(CallView::Add(kv("picky"@, name@, "sparse"@), patterns.deep_view()[i as int])));
        i = i + 1;
    }
    r
}

/// Write a submodule entry into `.gitmodules` (used by `picky add`). Git's
/// keys go in `submodule.<name>.*`, picky's in `picky.<name>.*`; every
/// optional key is set or removed, so re-adding a name converges to exactly
/// the new declaration.
pub fn write(sm: &Submodule) -> (r: Vec<ConfigCall>)
    ensures
        calls_view(r@) == write_calls(sm@),
{
    let n = &sm.name;
    let mut r: Vec<ConfigCall> = Vec::new();
    push_call(&mut r, ConfigCall::SetValue(key("submodule", n, "path"), sm.path.clone()));
    push_call(&mut r, ConfigCall::SetValue(key("submodule", n, "url"), sm.url.clone()));
    push_call(&mut r, set_or_unset_call(key("submodule", n, "branch"), opt_clone(&sm.branch)));
    let shallow = if sm.shallow {
        Some(owned("true"))
    } else {
        None
    };
    push_call(&mut r, set_or_unset_call(key("submodule", n, "shallow"), shallow));
    let depth = match sm.depth {
        Some(d) => Some(u32_to_string(d)),
        None => None,
    };
    push_call(&mut r, set_or_unset_call(key("picky", n, "depth"), depth));
    push_call(&mut r, set_or_unset_call(key("picky", n, "filter"), opt_clone(&sm.filter)));
    push_call(&mut r, set_or_unset_call(key("picky", n, "patches"), opt_clone(&sm.patches)));
    push_call(
        &mut r,
        set_or_unset_call(key("picky", n, "postUpdate"), opt_clone(&sm.post_update)),
    );
    let ghost head = calls_view(r@);
    let tail = set_sparse(n, &sm.sparse);
    let mut i: usize = 0;
    let ghost tv = calls_view(tail@);
    while i < tail.len()
        invariant
            i <= tail.len(),
            tv == calls_view(tail@),
            calls_view(r@) == head + tv.take(i as int),
        decreases tail.len() - i,
    {
        assert(tv.take(i + 1) =~= tv.take(i as int).push(tail@[i as int]@));
        push_call(&mut r, copy_call(&tail[i]));
        i = i + 1;
    }
    assert(tv.take(tail.len() as int) =~= tv);
    assert(calls_view(r@) =~= write_calls(sm@));
    r
}

fn copy_key(k: &ConfigKey) -> (r: ConfigKey)
    ensures
        r@ == k@,
{
    ConfigKey { section: k.section.clone(), sub: k.sub.clone(), var: k.var.clone() }
}

fn copy_call(c: &ConfigCall) -> (r: ConfigCall)
    ensures
        r@ == c@,
{
    match c {
        ConfigCall::SetValue(k, v) => ConfigCall::SetValue(copy_key(k), v.clone()),
        ConfigCall::UnsetAll(k) => ConfigCall::UnsetAll(copy_key(k)),
        ConfigCall::Add(k, v) => ConfigCall::Add(copy_key(k), v.clone()),
        ConfigCall::RemoveSection(s, n) => ConfigCall::RemoveSection(s.clone(), n.clone()),
    }
}

/// Strip `name`'s `submodule.<name>` and `picky.<name>` sections (used by
/// `picky remove`).
pub fn remove(name: &String) -> (r: Vec<ConfigCall>)
    ensures
        calls_view(r@) == remove_calls(name@),
{
    let mut r: Vec<ConfigCall> = Vec::new();
    push_call(&mut r, ConfigCall::RemoveSection(owned("submodule"), name.clone()));
    push_call(&mut r, ConfigCall::RemoveSection(owned("picky"), name.clone()));
    assert(calls_view(r@) =~= remove_calls(name@));
    r
}

/// The arguments of `git` that perform a call on `.gitmodules`.
pub open spec fn call_args(c: CallView) -> Seq<Seq<char>> {
    let base = seq!["config"@, "-f"@, ".gitmodules"@];
    match c {
        CallView::SetValue(k, v) => base + seq!["--replace-all"@, key_of(k.section, k.sub, k.var), v],
        CallView::UnsetAll(k) => base + seq!["--unset-all"@, key_of(k.section, k.sub, k.var)],
        CallView::Add(k, v) => base + seq!["--add"@, key_of(k.section, k.sub, k.var), v],
        CallView::RemoveSection(s, n) => base + seq!["--remove-section"@, s + "."@ + n],
    }
}

impl ConfigCall {
    /// The `git` arguments that perform this call.
    pub fn args(&self) -> (r: Vec<String>)
        ensures
            r.deep_view() == call_args(self@),
    {
        let mut r = vec![owned("config"), owned("-f"), owned(".gitmodules")];
        let ghost base = seq!["config"@, "-f"@, ".gitmodules"@];
        assert(r.deep_view() =~= base);
        match self {
            ConfigCall::SetValue(k, v) => {
                r.push(owned("--replace-all"));
                r.push(flat_key(k.section.as_str(), k.sub.as_str(), k.var.as_str()));
                r.push(v.clone());
            },
            ConfigCall::UnsetAll(k) => {
                r.push(owned("--unset-all"));
                r.push(flat_key(k.section.as_str(), k.sub.as_str(), k.var.as_str()));
            },
            ConfigCall::Add(k, v) => {
                r.push(owned("--add"));
                r.push(flat_key(k.section.as_str(), k.sub.as_str(), k.var.as_str()));
                r.push(v.clone());
            },
            ConfigCall::RemoveSection(sec, n) => {
                r.push(owned("--remove-section"));
                let mut t = sec.clone();
                push_str(&mut t, ".");
                push_str(&mut t, n.as_str());
                r.push(t);
            },
        }
        assert(r.deep_view() =~= call_args(self@));
        r
    }

    /// Whether a failure of the call, with exit code `code`, only means that
    /// there was nothing to remove: `git config --unset-all` exits with 5 for
    /// a key that is not there, and `--remove-section` fails for a section
    /// that is not there. Every other failure is an error.
    pub fn tolerates(&self, code: Option<i32>) -> (r: bool)
        ensures
            r == ((self@ is UnsetAll && code == Some(5i32)) || self@ is RemoveSection),
    {
        match self {
            ConfigCall::UnsetAll(_) => match code {
                Some(c) => c == 5,
                None => false,
            },
            ConfigCall::RemoveSection(_, _) => true,
            _ => false,
        }
    }
}


// ---------------------------------------------------------------------------
// What the calls do to the file
// ---------------------------------------------------------------------------

/// The stored form of a key: git lowercases the section and variable names
/// and keeps the subsection name as written.
pub open spec fn canon(k: KeyView) -> Seq<char> {
    key_of(text::lower(k.section), k.sub, text::lower(k.var))
}

/// Whether stored key `q` lies in subsection `sub` of `section`.
pub open spec fn in_section(q: Seq<char>, section: Seq<char>, sub: Seq<char>) -> bool {
    match strip_prefix(q, text::lower(section) + "."@ + sub + "."@) {
        Some(var) => index_of(var, '.') is None,
        None => false,
    }
}

/// The values of every key after one call, as `git config` documents it:
/// `--replace-all` leaves the key its one new value, `--unset-all` and
/// `--remove-section` drop values, `--add` appends one.
pub open spec fn apply(vals: spec_fn(Seq<char>) -> Seq<Seq<char>>, c: CallView) -> spec_fn(
    Seq<char>,
) -> Seq<Seq<char>> {
    match c {
        CallView::SetValue(k, v) => |q: Seq<char>|
            if q == canon(k) {
                seq![v]
            } else {
                vals(q)
            },
        CallView::UnsetAll(k) => |q: Seq<char>|
            if q == canon(k) {
                Seq::<Seq<char>>::empty()
            } else {
                vals(q)
            },
        CallView::Add(k, v) => |q: Seq<char>|
            if q == canon(k) {
                vals(q).push(v)
            } else {
                vals(q)
            },
        CallView::RemoveSection(section, sub) => |q: Seq<char>|
            if in_section(q, section, sub) {
                Seq::<Seq<char>>::empty()
            } else {
                vals(q)
            },
    }
}

/// The values of every key after the calls `cs`, in order.
pub open spec fn apply_all(
    vals: spec_fn(Seq<char>) -> Seq<Seq<char>>,
    cs: Seq<CallView>,
) -> spec_fn(Seq<char>) -> Seq<Seq<char>>
    decreases cs.len(),
{
    if cs.len() == 0 {
        vals
    } else {
        apply(apply_all(vals, cs.drop_last()), cs.last())
    }
}

proof fn lemma_apply_all_append(
    vals: spec_fn(Seq<char>) -> Seq<Seq<char>>,
    a: Seq<CallView>,
    b: Seq<CallView>,
)
    ensures
        apply_all(vals, a + b) == apply_all(apply_all(vals, a), b),
    decreases b.len(),
{
    if b.len() == 0 {
        assert(a + b =~= a);
    } else {
        assert((a + b).drop_last() =~= a + b.drop_last());
        assert((a + b).last() == b.last());
        lemma_apply_all_append(vals, a, b.drop_last());
    }
}

proof fn lemma_sparse_calls(
    vals: spec_fn(Seq<char>) -> Seq<Seq<char>>,
    name: Seq<char>,
    pats: Seq<Seq<char>>,
    q: Seq<char>,
)
    ensures
        apply_all(vals, sparse_calls(name, pats))(q) == if q == canon(
            kv("picky"@, name, "sparse"@),
        ) {
            pats
        } else {
            vals(q)
        },
    decreases pats.len(),
{
    let k = kv("picky"@, name, "sparse"@);
    let cs = sparse_calls(name, pats);
    if pats.len() == 0 {
        assert(cs =~= seq![CallView::UnsetAll(k)]);
        assert(cs.drop_last() =~= Seq::<CallView>::empty());
        assert(apply_all(vals, cs.drop_last()) == vals);
        assert(apply_all(vals, cs) == apply(vals, CallView::UnsetAll(k)));
        if q == canon(k) {
            assert(pats =~= Seq::<Seq<char>>::empty());
        }
    } else {
        let prev = sparse_calls(name, pats.drop_last());
        assert(cs.drop_last() =~= prev);
        assert(cs.last() == CallView::Add(k, pats.last()));
        lemma_sparse_calls(vals, name, pats.drop_last(), q);
        let f = apply_all(vals, prev);
        assert(apply_all(vals, cs) == apply(f, CallView::Add(k, pats.last())));
        if q == canon(k) {
            assert(pats.drop_last().push(pats.last()) =~= pats);
            assert(apply_all(vals, cs)(q) == f(q).push(pats.last()));
        } else {
            assert(apply_all(vals, cs)(q) == f(q));
        }
    }
}

proof fn lemma_literal_keys()
    ensures
        text::lower("submodule"@) == "submodule"@,
        text::lower("picky"@) == "picky"@,
        text::lower("path"@) == "path"@,
        text::lower("url"@) == "url"@,
        text::lower("branch"@) == "branch"@,
        text::lower("shallow"@) == "shallow"@,
        text::lower("depth"@) == "depth"@,
        text::lower("filter"@) == "filter"@,
        text::lower("patches"@) == "patches"@,
        text::lower("postUpdate"@) == "postupdate"@,
        text::lower("sparse"@) == "sparse"@,
        "submodule"@.len() == 9,
        "picky"@.len() == 5,
        "path"@.len() == 4,
        "url"@.len() == 3,
        "branch"@.len() == 6,
        "shallow"@.len() == 7,
        "depth"@.len() == 5,
        "filter"@.len() == 6,
        "patches"@.len() == 7,
        "postupdate"@.len() == 10,
        "sparse"@.len() == 6,
        "submodule"@[0] == 's',
        "picky"@[0] == 'p',
        "filter"@[5] == 'r',
        "sparse"@[5] == 'e',
{
    reveal_strlit("submodule");
    reveal_strlit("picky");
    reveal_strlit("path");
    reveal_strlit("url");
    reveal_strlit("branch");
    reveal_strlit("shallow");
    reveal_strlit("depth");
    reveal_strlit("filter");
    reveal_strlit("patches");
    reveal_strlit("postUpdate");
    reveal_strlit("postupdate");
    reveal_strlit("sparse");
    assert(text::lower("submodule"@) =~= "submodule"@);
    assert(text::lower("picky"@) =~= "picky"@);
    assert(text::lower("path"@) =~= "path"@);
    assert(text::lower("url"@) =~= "url"@);
    assert(text::lower("branch"@) =~= "branch"@);
    assert(text::lower("shallow"@) =~= "shallow"@);
    assert(text::lower("depth"@) =~= "depth"@);
    assert(text::lower("filter"@) =~= "filter"@);
    assert(text::lower("patches"@) =~= "patches"@);
    assert(text::lower("postUpdate"@) =~= "postupdate"@);
    assert(text::lower("sparse"@) =~= "sparse"@);
}

proof fn lemma_keys_differ(s1: Seq<char>, s2: Seq<char>, n: Seq<char>, v1: Seq<char>, v2: Seq<char>)
    requires
        s1.len() > 0,
        s2.len() > 0,
        v1.len() > 0,
        v2.len() > 0,
        (s1[0] != s2[0]) || (s1 == s2 && (v1.len() != v2.len() || v1.last() != v2.last())),
    ensures
        key_of(s1, n, v1) != key_of(s2, n, v2),
{
    let k1 = key_of(s1, n, v1);
    let k2 = key_of(s2, n, v2);
    if s1[0] != s2[0] {
        assert(k1[0] == s1[0]);
        assert(k2[0] == s2[0]);
    } else if v1.len() != v2.len() {
        assert(k1.len() != k2.len());
    } else {
        assert(k1[k1.len() - 1] == v1.last());
        assert(k2[k2.len() - 1] == v2.last());
    }
}

/// Reading back a written declaration gives the declaration: after the calls
/// of [`write`] for `sm`, loading `sm.name` yields `sm`, whatever the file
/// held for that name before.
pub proof fn lemma_write_then_load(vals: spec_fn(Seq<char>) -> Seq<Seq<char>>, sm: SubmoduleView)
    ensures
        load_from(apply_all(vals, write_calls(sm)), sm.name) == sm,
{
    lemma_literal_keys();
    let n = sm.name;
    let k_path = kv("submodule"@, n, "path"@);
    let k_url = kv("submodule"@, n, "url"@);
    let k_branch = kv("submodule"@, n, "branch"@);
    let k_shallow = kv("submodule"@, n, "shallow"@);
    let k_depth = kv("picky"@, n, "depth"@);
    let k_filter = kv("picky"@, n, "filter"@);
    let k_patches = kv("picky"@, n, "patches"@);
    let k_post = kv("picky"@, n, "postUpdate"@);
    let k_sparse = kv("picky"@, n, "sparse"@);
    let q_path = sub_key(n, "path"@);
    let q_url = sub_key(n, "url"@);
    let q_branch = sub_key(n, "branch"@);
    let q_shallow = sub_key(n, "shallow"@);
    let q_depth = own_key(n, "depth"@);
    let q_filter = own_key(n, "filter"@);
    let q_patches = own_key(n, "patches"@);
    let q_post = own_key(n, "postupdate"@);
    let q_sparse = own_key(n, "sparse"@);
    assert(canon(k_path) == q_path);
    assert(canon(k_url) == q_url);
    assert(canon(k_branch) == q_branch);
    assert(canon(k_shallow) == q_shallow);
    assert(canon(k_depth) == q_depth);
    assert(canon(k_filter) == q_filter);
    assert(canon(k_patches) == q_patches);
    assert(canon(k_post) == q_post);
    assert(canon(k_sparse) == q_sparse);
    let subs = seq![q_path, q_url, q_branch, q_shallow];
    let owns = seq![q_depth, q_filter, q_patches, q_post, q_sparse];
    let svars = seq!["path"@, "url"@, "branch"@, "shallow"@];
    let ovars = seq!["depth"@, "filter"@, "patches"@, "postupdate"@, "sparse"@];
    assert forall|i: int, j: int| 0 <= i < 4 && 0 <= j < 4 && i != j implies subs[i] != subs[j] by {
        lemma_keys_differ("submodule"@, "submodule"@, n, svars[i], svars[j]);
    }
    assert forall|i: int, j: int| 0 <= i < 5 && 0 <= j < 5 && i != j implies owns[i] != owns[j] by {
        lemma_keys_differ("picky"@, "picky"@, n, ovars[i], ovars[j]);
    }
    assert forall|i: int, j: int| 0 <= i < 4 && 0 <= j < 5 implies subs[i] != owns[j] by {
        lemma_keys_differ("submodule"@, "picky"@, n, svars[i], ovars[j]);
    }
    let shallow_v: Option<Seq<char>> = if sm.shallow {
        Some("true"@)
    } else {
        None
    };
    let depth_v: Option<Seq<char>> = match sm.depth {
        Some(d) => Some(dec(d as nat)),
        None => None,
    };
    let c0 = CallView::SetValue(k_path, sm.path);
    let c1 = CallView::SetValue(k_url, sm.url);
    let c2 = set_or_unset(k_branch, sm.branch);
    let c3 = set_or_unset(k_shallow, shallow_v);
    let c4 = set_or_unset(k_depth, depth_v);
    let c5 = set_or_unset(k_filter, sm.filter);
    let c6 = set_or_unset(k_patches, sm.patches);
    let c7 = set_or_unset(k_post, sm.post_update);
    let head = seq![c0, c1, c2, c3, c4, c5, c6, c7];
    assert(write_calls(sm) =~= head + sparse_calls(n, sm.sparse));
    lemma_apply_all_append(vals, head, sparse_calls(n, sm.sparse));
    let g1 = apply(vals, c0);
    let g2 = apply(g1, c1);
    let g3 = apply(g2, c2);
    let g4 = apply(g3, c3);
    let g5 = apply(g4, c4);
    let g6 = apply(g5, c5);
    let g7 = apply(g6, c6);
    let g8 = apply(g7, c7);
    assert(head.drop_last().drop_last().drop_last().drop_last().drop_last().drop_last().drop_last().drop_last() =~= Seq::<CallView>::empty());
    assert(apply_all(vals, head) == g8) by {
        let h = head;
        assert(h.drop_last() =~= seq![c0, c1, c2, c3, c4, c5, c6]);
        assert(h.drop_last().drop_last() =~= seq![c0, c1, c2, c3, c4, c5]);
        assert(h.drop_last().drop_last().drop_last() =~= seq![c0, c1, c2, c3, c4]);
        assert(h.drop_last().drop_last().drop_last().drop_last() =~= seq![c0, c1, c2, c3]);
        assert(h.drop_last().drop_last().drop_last().drop_last().drop_last() =~= seq![c0, c1, c2]);
        assert(h.drop_last().drop_last().drop_last().drop_last().drop_last().drop_last() =~= seq![c0, c1]);
        assert(h.drop_last().drop_last().drop_last().drop_last().drop_last().drop_last().drop_last() =~= seq![c0]);
        reveal_with_fuel(apply_all, 9);
    }
    let fin = apply_all(vals, write_calls(sm));
    assert forall|q: Seq<char>| q != q_sparse implies #[trigger] fin(q) == g8(q) by {
        lemma_sparse_calls(g8, n, sm.sparse, q);
    }
    lemma_sparse_calls(g8, n, sm.sparse, q_sparse);
    assert(fin(q_sparse) == sm.sparse);
    assert(fin(q_path) == seq![sm.path]);
    assert(fin(q_url) == seq![sm.url]);
    assert(last_value(fin(q_branch)) == sm.branch);
    assert(last_value(fin(q_shallow)) == shallow_v);
    assert(last_value(fin(q_filter)) == sm.filter);
    assert(last_value(fin(q_patches)) == sm.patches);
    assert(last_value(fin(q_post)) == sm.post_update);
    assert(last_value(fin(q_depth)) == depth_v);
    if sm.shallow {
        assert(last_value(fin(q_shallow)) == Some("true"@));
    }
    match sm.depth {
        Some(d) => {
            text::lemma_parse_dec(d);
        },
        None => {},
    }
    assert(load_from(fin, n) =~= sm);
}

/// Recording a pattern list changes only that list: after the calls of
/// [`set_sparse`], loading the submodule gives what it was before with
/// exactly the new patterns, in order.
pub proof fn lemma_set_sparse_then_load(
    vals: spec_fn(Seq<char>) -> Seq<Seq<char>>,
    name: Seq<char>,
    pats: Seq<Seq<char>>,
)
    ensures
        load_from(apply_all(vals, sparse_calls(name, pats)), name) == (SubmoduleView {
            sparse: pats,
            ..load_from(vals, name)
        }),
{
    lemma_literal_keys();
    let n = name;
    let q_sparse = own_key(n, "sparse"@);
    assert(canon(kv("picky"@, n, "sparse"@)) == q_sparse);
    let subs = seq![sub_key(n, "path"@), sub_key(n, "url"@), sub_key(n, "branch"@), sub_key(n, "shallow"@)];
    let svars = seq!["path"@, "url"@, "branch"@, "shallow"@];
    let owns = seq![own_key(n, "depth"@), own_key(n, "filter"@), own_key(n, "patches"@), own_key(n, "postupdate"@)];
    let ovars = seq!["depth"@, "filter"@, "patches"@, "postupdate"@];
    assert forall|i: int| 0 <= i < 4 implies subs[i] != q_sparse by {
        lemma_keys_differ("submodule"@, "picky"@, n, svars[i], "sparse"@);
    }
    assert forall|i: int| 0 <= i < 4 implies owns[i] != q_sparse by {
        lemma_keys_differ("picky"@, "picky"@, n, ovars[i], "sparse"@);
    }
    let fin = apply_all(vals, sparse_calls(n, pats));
    assert forall|q: Seq<char>| q != q_sparse implies #[trigger] fin(q) == vals(q) by {
        lemma_sparse_calls(vals, n, pats, q);
    }
    lemma_sparse_calls(vals, n, pats, q_sparse);
    assert(fin(subs[0]) == vals(subs[0]));
    assert(fin(subs[1]) == vals(subs[1]));
    assert(fin(subs[2]) == vals(subs[2]));
    assert(fin(subs[3]) == vals(subs[3]));
    assert(fin(owns[0]) == vals(owns[0]));
    assert(fin(owns[1]) == vals(owns[1]));
    assert(fin(owns[2]) == vals(owns[2]));
    assert(fin(owns[3]) == vals(owns[3]));
    assert(load_from(fin, n) =~= (SubmoduleView { sparse: pats, ..load_from(vals, n) }));
}

/// Undeclaring leaves no trace: after the calls of [`remove`], no key of
/// the submodule's `submodule.<name>` or `picky.<name>` section holds a
/// value, and every other key keeps its values.
pub proof fn lemma_remove_clears(vals: spec_fn(Seq<char>) -> Seq<Seq<char>>, name: Seq<char>, q: Seq<char>)
    ensures
        in_section(q, "submodule"@, name) || in_section(q, "picky"@, name) ==> apply_all(
            vals,
            remove_calls(name),
        )(q).len() == 0,
        !in_section(q, "submodule"@, name) && !in_section(q, "picky"@, name) ==> apply_all(
            vals,
            remove_calls(name),
        )(q) == vals(q),
{
    let cs = remove_calls(name);
    let c0 = CallView::RemoveSection("submodule"@, name);
    let c1 = CallView::RemoveSection("picky"@, name);
    assert(cs.drop_last() =~= seq![c0]);
    assert(cs.drop_last().drop_last() =~= Seq::<CallView>::empty());
    assert(cs.last() == c1);
    assert(cs.drop_last().last() == c0);
    assert(apply_all(vals, cs.drop_last().drop_last()) == vals);
    assert(apply_all(vals, cs.drop_last()) == apply(vals, c0));
    assert(apply_all(vals, cs) == apply(apply(vals, c0), c1));
}

/// An explicit depth is always the fetch depth, whether or not the
/// submodule is marked shallow; `shallow` alone means depth 1; neither means
/// the whole history.
pub proof fn lemma_explicit_depth_wins(d: u32, shallow: bool)
    ensures
        effective_depth_of(Some(d), shallow) == Some(d),
        effective_depth_of(Some(d), true) == effective_depth_of(Some(d), false),
        effective_depth_of(None, true) == Some(1u32),
        effective_depth_of(None, false) is None,
{
}

} // verus!
