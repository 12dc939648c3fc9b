use picky::config::{self, ConfigCall, ConfigError, GitConfig, Submodule};

fn listing(entries: &[(&str, &str)]) -> String {
    let mut s = String::new();
    for (k, v) in entries {
        s.push_str(k);
        s.push('\n');
        s.push_str(v);
        s.push('\0');
    }
    s
}

fn one_dep() -> GitConfig {
    GitConfig::parse(&listing(&[
        ("submodule.ext/dep.path", "ext/dep"),
        ("submodule.ext/dep.url", "https://example.com/dep.git"),
        ("submodule.ext/dep.branch", "main"),
        ("picky.ext/dep.sparse", "/src/"),
        ("picky.ext/dep.sparse", "/keep/"),
        ("picky.ext/dep.depth", "3"),
        ("picky.ext/dep.patches", "patches"),
        ("picky.ext/dep.postupdate", "make gen"),
    ]))
}

fn two_subs() -> GitConfig {
    GitConfig::parse(&listing(&[
        ("submodule.a.path", "ext/a"),
        ("submodule.a.url", "https://example.com/a.git"),
        ("submodule.b.path", "ext/b"),
        ("submodule.b.url", "https://example.com/b.git"),
        ("submodule.b.shallow", "true"),
    ]))
}

fn bare(name: &str, path: &str, url: &str) -> Submodule {
    Submodule {
        name: name.to_string(),
        path: path.to_string(),
        url: url.to_string(),
        branch: None,
        shallow: false,
        sparse: Vec::new(),
        depth: None,
        filter: None,
        patches: None,
        post_update: None,
    }
}

fn key_text(k: &config::ConfigKey) -> String {
    format!("{}.{}.{}", k.section, k.sub, k.var)
}

fn call_text(c: &ConfigCall) -> String {
    match c {
        ConfigCall::SetValue(k, v) => format!("set {} {}", key_text(k), v),
        ConfigCall::UnsetAll(k) => format!("unset-all {}", key_text(k)),
        ConfigCall::Add(k, v) => format!("add {} {}", key_text(k), v),
        ConfigCall::RemoveSection(s, n) => format!("remove-section {}.{}", s, n),
    }
}

#[test]
fn listing_parse_keeps_entries_in_order() {
    let cfg = GitConfig::parse("a.b.c\nx\0a.b.d\n\0lonely.key\0\0");
    assert_eq!(cfg.entries.len(), 3);
    assert_eq!(cfg.entries[0], ("a.b.c".to_string(), "x".to_string()));
    assert_eq!(cfg.entries[1], ("a.b.d".to_string(), String::new()));
    assert_eq!(cfg.entries[2], ("lonely.key".to_string(), String::new()));
}

#[test]
fn value_with_newline_keeps_everything_after_the_first() {
    let cfg = GitConfig::parse("picky.x.postupdate\nline1\nline2\0");
    assert_eq!(cfg.get(&"picky.x.postupdate".to_string()), Some("line1\nline2".to_string()));
}

#[test]
fn get_returns_last_value_and_get_all_every_value() {
    let cfg = one_dep();
    let key = "picky.ext/dep.sparse".to_string();
    assert_eq!(cfg.get_all(&key), vec!["/src/", "/keep/"]);
    assert_eq!(cfg.get(&key), Some("/keep/".to_string()));
    assert_eq!(cfg.get(&"picky.ext/dep.missing".to_string()), None);
}

#[test]
fn load_reads_every_declared_field() {
    let cfg = one_dep();
    let sm = config::load(&cfg, &"ext/dep".to_string());
    assert_eq!(sm.name, "ext/dep");
    assert_eq!(sm.path, "ext/dep");
    assert_eq!(sm.url, "https://example.com/dep.git");
    assert_eq!(sm.branch.as_deref(), Some("main"));
    assert!(!sm.shallow);
    assert_eq!(sm.sparse, vec!["/src/", "/keep/"]);
    assert_eq!(sm.depth, Some(3));
    assert_eq!(sm.filter, None);
    assert_eq!(sm.patches.as_deref(), Some("patches"));
    assert_eq!(sm.post_update.as_deref(), Some("make gen"));
}

#[test]
fn load_defaults_path_to_name_and_ignores_bad_depth() {
    let cfg = GitConfig::parse(&listing(&[
        ("submodule.lib.url", "u"),
        ("picky.lib.depth", "deep"),
    ]));
    let sm = config::load(&cfg, &"lib".to_string());
    assert_eq!(sm.path, "lib");
    assert_eq!(sm.depth, None);
}

#[test]
fn names_lists_sections_with_a_path_in_file_order() {
    let cfg = two_subs();
    assert_eq!(config::names(&cfg), vec!["a", "b"]);
    let all = config::load_all(&cfg);
    assert_eq!(all.len(), 2);
    assert_eq!(all[0].path, "ext/a");
    assert_eq!(all[1].path, "ext/b");
    assert!(all[1].shallow);
}

#[test]
fn find_matches_by_path_or_name() {
    let cfg = two_subs();
    assert_eq!(config::find(&cfg, "ext/b").unwrap().name, "b");
    assert_eq!(config::find(&cfg, "a").unwrap().path, "ext/a");
    match config::find(&cfg, "ext/zzz") {
        Err(ConfigError::NoMatch(n)) => assert_eq!(n, "ext/zzz"),
        other => panic!("unexpected {:?}", other),
    }
}

#[test]
fn only_needs_exactly_one_submodule() {
    assert_eq!(config::only(&one_dep()).unwrap().path, "ext/dep");
    assert!(matches!(config::only(&two_subs()), Err(ConfigError::Multiple)));
    assert!(matches!(config::only(&GitConfig::empty()), Err(ConfigError::NoneDeclared)));
}

#[test]
fn select_reports_the_first_unknown_path() {
    let cfg = two_subs();
    let all = config::select(&cfg, &Vec::new()).unwrap();
    assert_eq!(all.len(), 2);
    let picked = config::select(&cfg, &vec!["ext/b".to_string()]).unwrap();
    assert_eq!(picked[0].name, "b");
    match config::select(&cfg, &vec!["ext/a".to_string(), "nope".to_string(), "gone".to_string()]) {
        Err(ConfigError::NoMatch(n)) => assert_eq!(n, "nope"),
        other => panic!("unexpected {:?}", other),
    }
}

#[test]
fn config_error_messages() {
    assert_eq!(
        ConfigError::NoMatch("x".to_string()).message(),
        "no submodule matching 'x' in .gitmodules"
    );
    assert_eq!(ConfigError::NoneDeclared.message(), "no submodules declared in .gitmodules");
    assert_eq!(ConfigError::Multiple.message(), "multiple submodules declared — specify a path");
}

#[test]
fn effective_filter_and_depth_defaults() {
    let mut sm = bare("x", "x", "u");
    assert_eq!(sm.effective_filter(), Some("blob:none"));
    assert_eq!(sm.effective_depth(), None);
    sm.shallow = true;
    assert_eq!(sm.effective_depth(), Some(1));
    sm.depth = Some(7);
    assert_eq!(sm.effective_depth(), Some(7));
    sm.filter = Some("none".to_string());
    assert_eq!(sm.effective_filter(), None);
    sm.filter = Some("tree:0".to_string());
    assert_eq!(sm.effective_filter(), Some("tree:0"));
}

#[test]
fn write_sets_present_keys_and_unsets_absent_ones() {
    // A rerun of `add` without --branch/--depth must clear what an earlier
    // run recorded, so every optional key is either set or unset.
    let sm = bare("ext/dep", "ext/dep", "https://example.com/dep.git");
    let calls: Vec<String> = config::write(&sm).iter().map(call_text).collect();
    assert_eq!(
        calls,
        vec![
            "set submodule.ext/dep.path ext/dep",
            "set submodule.ext/dep.url https://example.com/dep.git",
            "unset-all submodule.ext/dep.branch",
            "unset-all submodule.ext/dep.shallow",
            "unset-all picky.ext/dep.depth",
            "unset-all picky.ext/dep.filter",
            "unset-all picky.ext/dep.patches",
            "unset-all picky.ext/dep.postUpdate",
            "unset-all picky.ext/dep.sparse",
        ]
    );
}

#[test]
fn write_records_every_option() {
    let mut sm = bare("d", "ext/d", "u");
    sm.branch = Some("main".to_string());
    sm.shallow = true;
    sm.depth = Some(1);
    sm.filter = Some("tree:0".to_string());
    sm.patches = Some("p".to_string());
    sm.post_update = Some("true".to_string());
    sm.sparse = vec!["/src/".to_string(), "/keep/".to_string()];
    let calls: Vec<String> = config::write(&sm).iter().map(call_text).collect();
    assert_eq!(
        calls,
        vec![
            "set submodule.d.path ext/d",
            "set submodule.d.url u",
            "set submodule.d.branch main",
            "set submodule.d.shallow true",
            "set picky.d.depth 1",
            "set picky.d.filter tree:0",
            "set picky.d.patches p",
            "set picky.d.postUpdate true",
            "unset-all picky.d.sparse",
            "add picky.d.sparse /src/",
            "add picky.d.sparse /keep/",
        ]
    );
}

#[test]
fn set_sparse_and_remove_calls() {
    let calls: Vec<String> = config::set_sparse(&"n".to_string(), &vec!["/a/".to_string()])
        .iter()
        .map(call_text)
        .collect();
    assert_eq!(calls, vec!["unset-all picky.n.sparse", "add picky.n.sparse /a/"]);
    let calls: Vec<String> = config::remove(&"n".to_string()).iter().map(call_text).collect();
    assert_eq!(calls, vec!["remove-section submodule.n", "remove-section picky.n"]);
}

#[test]
fn section_names_are_distinct_in_first_appearance_order() {
    let cfg = GitConfig::parse(&listing(&[
        ("submodule.b.path", "b"),
        ("picky.a.sparse", "/x/"),
        ("submodule.a.path", "a"),
        ("submodule.b.url", "u"),
        ("picky.a.depth", "1"),
    ]));
    assert_eq!(config::section_names(&cfg, "submodule"), vec!["b", "a"]);
    assert_eq!(config::section_names(&cfg, "picky"), vec!["a"]);
}

#[test]
fn written_declaration_reads_back() {
    // Apply the calls of `write` the way git would and load the result.
    let mut sm = bare("d", "ext/d", "u");
    sm.branch = Some("dev".to_string());
    sm.depth = Some(4);
    sm.sparse = vec!["/a/".to_string()];
    // Keys that already hold several values are rewritten all the same.
    let mut entries: Vec<(String, String)> = vec![
        ("submodule.d.url".to_string(), "old1".to_string()),
        ("submodule.d.url".to_string(), "old2".to_string()),
        ("submodule.d.branch".to_string(), "x".to_string()),
        ("submodule.d.branch".to_string(), "y".to_string()),
        ("picky.d.patches".to_string(), "p1".to_string()),
        ("picky.d.patches".to_string(), "p2".to_string()),
    ];
    for c in config::write(&sm) {
        match c {
            ConfigCall::SetValue(k, v) => {
                let key = lower_var(&key_text(&k));
                entries.retain(|(ek, _)| *ek != key);
                entries.push((key, v));
            }
            ConfigCall::UnsetAll(k) => {
                let key = lower_var(&key_text(&k));
                entries.retain(|(ek, _)| *ek != key);
            }
            ConfigCall::Add(k, v) => entries.push((lower_var(&key_text(&k)), v)),
            ConfigCall::RemoveSection(_, _) => {}
        }
    }
    let cfg = GitConfig { entries };
    let back = config::load(&cfg, &"d".to_string());
    assert_eq!(back.path, "ext/d");
    assert_eq!(back.url, "u");
    assert_eq!(back.branch.as_deref(), Some("dev"));
    assert_eq!(back.depth, Some(4));
    assert_eq!(back.sparse, vec!["/a/"]);
    assert_eq!(back.post_update, None);
    assert_eq!(back.patches, None);
}

/// `git config --list` prints section and variable names in lower case.
fn lower_var(key: &str) -> String {
    let first = key.find('.').unwrap();
    let last = key.rfind('.').unwrap();
    format!(
        "{}{}{}",
        key[..first].to_lowercase(),
        &key[first..last],
        key[last..].to_lowercase()
    )
}

#[test]
fn config_calls_become_git_config_arguments() {
    let calls = config::set_sparse(&"ext/dep".to_string(), &vec!["/src/".to_string()]);
    assert_eq!(
        calls[0].args(),
        vec!["config", "-f", ".gitmodules", "--unset-all", "picky.ext/dep.sparse"]
    );
    assert!(calls[0].tolerates(Some(5)));
    assert!(!calls[0].tolerates(Some(4)));
    assert!(!calls[0].tolerates(None));
    assert_eq!(
        calls[1].args(),
        vec!["config", "-f", ".gitmodules", "--add", "picky.ext/dep.sparse", "/src/"]
    );
    assert!(!calls[1].tolerates(Some(5)));
    let w = config::write(&bare("d", "ext/d", "u"));
    assert_eq!(
        w[0].args(),
        vec!["config", "-f", ".gitmodules", "--replace-all", "submodule.d.path", "ext/d"]
    );
    assert!(!w[0].tolerates(Some(5)));
    assert_eq!(w[2].args(), vec!["config", "-f", ".gitmodules", "--unset-all", "submodule.d.branch"]);
    let r = config::remove(&"d".to_string());
    assert_eq!(r[1].args(), vec!["config", "-f", ".gitmodules", "--remove-section", "picky.d"]);
    assert!(r[1].tolerates(Some(128)));
}

#[test]
fn recorded_sparse_list_reads_back_alone() {
    let mut entries = GitConfig::parse(&listing(&[
        ("submodule.d.path", "ext/d"),
        ("picky.d.sparse", "/old/"),
        ("picky.d.depth", "2"),
    ]))
    .entries;
    for c in config::set_sparse(&"d".to_string(), &vec!["/a/".to_string(), "/b/".to_string()]) {
        match c {
            ConfigCall::UnsetAll(k) => {
                let key = lower_var(&key_text(&k));
                entries.retain(|(ek, _)| *ek != key);
            }
            ConfigCall::Add(k, v) => entries.push((lower_var(&key_text(&k)), v)),
            other => panic!("unexpected {:?}", other),
        }
    }
    let sm = config::load(&GitConfig { entries }, &"d".to_string());
    assert_eq!(sm.sparse, vec!["/a/", "/b/"]);
    assert_eq!(sm.depth, Some(2));
    assert_eq!(sm.path, "ext/d");
}
