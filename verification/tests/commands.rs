use picky::commands::add::{self, AddPhase};
use picky::commands::doctor::{self, Observed};
use picky::commands::init::{self, InitPhase};
use picky::commands::remove::{self, Confirmation, RemoveError};
use picky::commands::sparse::{self, Action, SparseError};
use picky::commands::update::{self, UpdateError, UpdatePhase};
use picky::config::{ConfigCall, ConfigError, GitConfig, Submodule};
use picky::console::{Level, Message};

fn listing(entries: &[(&str, &str)]) -> String {
    let mut s = String::new();
    for (k, v) in entries {
        s.push_str(k);
        s.push('\n');
        s.push_str(v);
        s.push('\0');
    }
    s
}

fn one_dep() -> GitConfig {
    GitConfig::parse(&listing(&[
        ("submodule.ext/dep.path", "ext/dep"),
        ("submodule.ext/dep.url", "https://example.com/dep.git"),
        ("picky.ext/dep.sparse", "/src/"),
    ]))
}

fn two_subs() -> GitConfig {
    GitConfig::parse(&listing(&[
        ("submodule.ext/a.path", "ext/a"),
        ("submodule.ext/a.url", "ua"),
        ("picky.ext/a.sparse", "/src/"),
        ("submodule.ext/b.path", "ext/b"),
        ("submodule.ext/b.url", "ub"),
        ("picky.ext/b.sparse", "/keep/"),
    ]))
}

fn strings(v: &[&str]) -> Vec<String> {
    v.iter().map(|s| s.to_string()).collect()
}

fn texts(ms: &[Message]) -> Vec<(Level, String)> {
    ms.iter().map(|m| (m.level, m.text.clone())).collect()
}

fn sparse_values(calls: &[ConfigCall]) -> Vec<String> {
    calls
        .iter()
        .filter_map(|c| match c {
            ConfigCall::Add(_, v) => Some(v.clone()),
            _ => None,
        })
        .collect()
}

// --- sparse -----------------------------------------------------------------

#[test]
fn sparse_add_widens_and_stages_the_new_list() {
    let plan = sparse::run(
        &one_dep(),
        Some("ext/dep".to_string()),
        Action::Add(strings(&["/keep/"])),
        false,
    )
    .unwrap();
    assert!(plan.before.is_empty());
    assert!(matches!(plan.calls[0], ConfigCall::UnsetAll(_)));
    assert_eq!(sparse_values(&plan.calls), vec!["/src/", "/keep/"]);
    assert_eq!(
        texts(&plan.after),
        vec![(
            Level::Success,
            "ext/dep: now 2 sparse pattern(s) configured (.gitmodules staged)".to_string()
        )]
    );
    assert_eq!(plan.reinit.as_deref(), Some("ext/dep"));
}

#[test]
fn sparse_add_of_present_pattern_warns_and_changes_nothing() {
    let plan = sparse::run(&one_dep(), None, Action::Add(strings(&["/src/"])), false).unwrap();
    assert_eq!(
        texts(&plan.before),
        vec![
            (Level::Warn, "pattern already present, skipping: /src/".to_string()),
            (Level::Plain, "ext/dep: sparse patterns unchanged".to_string()),
        ]
    );
    assert!(plan.calls.is_empty());
    assert!(plan.after.is_empty());
    assert!(plan.reinit.is_none());
}

#[test]
fn sparse_remove_narrows_and_warns_about_absent_patterns() {
    let plan = sparse::run(
        &one_dep(),
        None,
        Action::Remove(strings(&["/nope/", "/src/"])),
        true,
    )
    .unwrap();
    assert_eq!(
        texts(&plan.before),
        vec![(Level::Warn, "pattern not present, skipping: /nope/".to_string())]
    );
    assert!(sparse_values(&plan.calls).is_empty());
    assert_eq!(
        texts(&plan.after),
        vec![
            (
                Level::Success,
                "ext/dep: now 0 sparse pattern(s) configured (.gitmodules staged)".to_string()
            ),
            (Level::Plain, "  run `picky init` to reconcile the checkout".to_string()),
        ]
    );
    assert!(plan.reinit.is_none());
}

#[test]
fn sparse_set_replaces_the_list_and_drops_repeats() {
    let plan = sparse::run(
        &one_dep(),
        None,
        Action::SetPatterns(strings(&["/keep/", "/keep/", "/docs/"])),
        false,
    )
    .unwrap();
    assert_eq!(sparse_values(&plan.calls), vec!["/keep/", "/docs/"]);
}

#[test]
fn sparse_set_with_no_patterns_is_refused() {
    let r = sparse::run(&one_dep(), None, Action::SetPatterns(Vec::new()), false);
    assert!(matches!(r, Err(SparseError::NoPatterns)));
    assert_eq!(
        SparseError::NoPatterns.message(),
        "no patterns given (pass them as arguments, --from <file> or --stdin; use `picky sparse clear` to empty the list)"
    );
}

#[test]
fn sparse_clear_empties_the_list() {
    let plan = sparse::run(&one_dep(), None, Action::Clear, false).unwrap();
    assert_eq!(plan.calls.len(), 1);
    assert!(matches!(plan.calls[0], ConfigCall::UnsetAll(_)));
}

#[test]
fn sparse_list_without_path_lists_every_submodule() {
    let plan = sparse::run(&two_subs(), None, Action::List, false).unwrap();
    assert_eq!(
        texts(&plan.before),
        vec![
            (Level::Heading, "ext/a sparse patterns:".to_string()),
            (Level::Plain, "  /src/".to_string()),
            (Level::Heading, "ext/b sparse patterns:".to_string()),
            (Level::Plain, "  /keep/".to_string()),
        ]
    );
    assert!(plan.calls.is_empty());
}

#[test]
fn sparse_mutation_needs_a_path_when_several_are_declared() {
    let r = sparse::run(&two_subs(), None, Action::Clear, false);
    assert!(matches!(r, Err(SparseError::Lookup(ConfigError::Multiple))));
    let r = sparse::run(&two_subs(), Some("ext/zz".to_string()), Action::Clear, false);
    match r {
        Err(SparseError::Lookup(ConfigError::NoMatch(n))) => assert_eq!(n, "ext/zz"),
        other => panic!("unexpected {:?}", other),
    }
}

#[test]
fn pattern_list_skips_blank_and_comment_lines() {
    assert_eq!(
        sparse::parse_pattern_list("# keep only this\n/keep/\n\n  /docs/  \r\n"),
        vec!["/keep/", "/docs/"]
    );
    assert!(sparse::parse_pattern_list("").is_empty());
}

#[test]
fn deduplicate_keeps_first_occurrences() {
    assert_eq!(sparse::deduplicate(&strings(&["/src/", "/src/", "/a/", "/src/"])), vec!["/src/", "/a/"]);
}

#[test]
fn add_then_remove_restores_the_list() {
    let mut cur = strings(&["/src/"]);
    let mut warnings = Vec::new();
    sparse::add_all(&mut cur, &strings(&["/keep/"]), &mut warnings);
    assert_eq!(cur, vec!["/src/", "/keep/"]);
    sparse::remove_all(&mut cur, &strings(&["/keep/"]), &mut warnings);
    assert_eq!(cur, vec!["/src/"]);
    assert!(warnings.is_empty());
}

// --- update -----------------------------------------------------------------

#[test]
fn update_with_one_argument_reads_a_path_or_a_ref() {
    let cfg = one_dep();
    let ts = update::run(&cfg, Some("ext/dep".to_string()), None, false).unwrap().targets;
    assert_eq!(ts.len(), 1);
    assert_eq!(ts[0].sm.path, "ext/dep");
    assert!(ts[0].reference.is_none());
    let ts = update::run(&cfg, Some("v1.6.3".to_string()), None, false).unwrap().targets;
    assert_eq!(ts[0].sm.path, "ext/dep");
    assert_eq!(ts[0].reference.as_deref(), Some("v1.6.3"));
}

#[test]
fn update_with_two_arguments_is_path_then_ref() {
    let ts = update::run(&two_subs(), Some("ext/b".to_string()), Some("main".to_string()), false).unwrap().targets;
    assert_eq!(ts[0].sm.path, "ext/b");
    assert_eq!(ts[0].reference.as_deref(), Some("main"));
}

#[test]
fn update_ref_shorthand_needs_a_lone_submodule() {
    let r = update::run(&two_subs(), Some("v2".to_string()), None, false);
    assert!(matches!(r, Err(UpdateError::Lookup(ConfigError::Multiple))));
    let r = update::run(&GitConfig::empty(), None, None, false);
    assert!(matches!(r, Err(UpdateError::Lookup(ConfigError::NoneDeclared))));
}

#[test]
fn update_all_refreshes_every_submodule_and_takes_no_target() {
    let p = update::run(&two_subs(), None, None, true).unwrap();
    assert!(p.warning.is_none());
    let ts = p.targets;
    assert_eq!(ts.len(), 2);
    assert!(ts.iter().all(|t| t.reference.is_none()));
    let r = update::run(&two_subs(), Some("ext/a".to_string()), None, true);
    assert!(matches!(r, Err(UpdateError::AllWithTarget)));
    assert_eq!(
        UpdateError::AllWithTarget.message(),
        "--all refreshes every submodule at its current pin and can't be combined with a path or ref"
    );
}

#[test]
fn update_phase_order() {
    use_phases();
}

fn use_phases() {
    type P = UpdatePhase;
    assert_eq!(
        update::phases(false, false, false, true),
        vec![P::CheckCheckout, P::ReadHead, P::CheckDirty, P::Checkout, P::ReadNewHead, P::Patches, P::Hook, P::Report]
    );
    assert_eq!(
        update::phases(true, true, true, false),
        vec![
            P::CheckCheckout, P::ReadHead, P::CheckDirty, P::Rebuild, P::Prepare, P::FetchTarget, P::Checkout,
            P::ReadNewHead, P::Hook, P::Stage, P::Report
        ]
    );
    assert_eq!(
        update::phases(true, false, false, true),
        vec![
            P::CheckCheckout, P::ReadHead, P::CheckDirty, P::FetchHistory, P::Checkout, P::ReadNewHead,
            P::Patches, P::Hook, P::Stage, P::Report
        ]
    );
}

#[test]
fn update_summary_of_a_bump() {
    let sm = update::run(&one_dep(), None, None, false).unwrap().targets.remove(0).sm;
    let out = update::summary(&sm, true, "0123456789abcdef", "fedcba9876543210", 2, false);
    assert_eq!(
        texts(&out),
        vec![
            (Level::Plain, String::new()),
            (Level::Success, "bumped ext/dep: 01234567 -> fedcba98".to_string()),
            (Level::Plain, "  patches applied: 2".to_string()),
            (Level::Plain, "  staged gitlink, commit ext/dep to record the pin".to_string()),
        ]
    );
    let out = update::summary(&sm, false, "abc", "abc", 0, true);
    assert_eq!(
        texts(&out),
        vec![
            (Level::Plain, String::new()),
            (Level::Success, "refreshed ext/dep at abc (pin unchanged)".to_string()),
            (Level::Plain, "  patches applied: 0 (--no-patches)".to_string()),
        ]
    );
}

#[test]
fn update_history_fetch_and_tracking_resolution() {
    let sm = update::run(&one_dep(), None, None, false).unwrap().targets.remove(0).sm;
    assert_eq!(
        update::history_fetch(&sm, true),
        vec!["fetch", "--tags", "--filter=blob:none", "--unshallow", "origin", "+refs/heads/*:refs/remotes/origin/*"]
    );
    assert_eq!(
        update::history_fetch(&sm, false),
        vec!["fetch", "--tags", "--filter=blob:none", "origin", "+refs/heads/*:refs/remotes/origin/*"]
    );
    assert!(update::is_shallow("true"));
    assert!(!update::is_shallow("false"));
    let (r, m) = update::resolve_tracking("main", true);
    assert_eq!(r, "origin/main");
    assert_eq!(m.unwrap().text, "Resolving 'main' to 'origin/main'");
    let (r, m) = update::resolve_tracking("v1", false);
    assert_eq!(r, "v1");
    assert!(m.is_none());
}

#[test]
fn update_bad_ref_hint_suggests_unshallow() {
    let sm = update::run(&one_dep(), None, None, false).unwrap().targets.remove(0).sm;
    let f = update::targeted_fetch(&sm, "deadbeef");
    assert_eq!(f.checkout, "FETCH_HEAD");
    assert!(f.hint.contains("--unshallow"));
    assert_eq!(
        f.hint,
        "fetching 'deadbeef' failed; if it's a commit SHA, the remote may be refusing to fetch it directly (only advertised branch/tag tips), try `picky update ext/dep deadbeef --unshallow` to fetch full history and resolve it from there"
    );
}

#[test]
fn update_dirty_tree_warns_and_stage_only_on_bump() {
    let sm = update::run(&one_dep(), None, None, false).unwrap().targets.remove(0).sm;
    assert!(update::dirty_warning(&sm, "").is_none());
    assert_eq!(
        update::dirty_warning(&sm, " M src/a.c\n").unwrap().text,
        "ext/dep working tree is dirty; resetting to target + patches"
    );
    assert!(update::stage_pin(&sm, false).is_none());
    assert_eq!(update::stage_pin(&sm, true).unwrap(), vec!["add", "ext/dep"]);
    assert_eq!(update::not_checked_out(&sm), "ext/dep is not checked out, run `picky init ext/dep` first");
    assert_eq!(update::with_depth(sm, Some(5)).depth, Some(5));
}

// --- remove -----------------------------------------------------------------

#[test]
fn remove_requires_paths_and_confirmation() {
    let cfg = one_dep();
    assert!(matches!(remove::run(&cfg, &Vec::new(), true, true), Err(RemoveError::NoPaths)));
    let paths = strings(&["ext/dep"]);
    assert!(matches!(remove::run(&cfg, &paths, false, false), Err(RemoveError::Unconfirmed)));
    let p = remove::run(&cfg, &paths, false, true).unwrap();
    assert!(matches!(p.confirmation, Confirmation::Ask));
    let p = remove::run(&cfg, &paths, true, false).unwrap();
    assert!(matches!(p.confirmation, Confirmation::Proceed));
    assert_eq!(p.targets[0].path, "ext/dep");
    match remove::run(&cfg, &strings(&["ext/dep", "x"]), true, false) {
        Err(RemoveError::Lookup(ConfigError::NoMatch(n))) => assert_eq!(n, "x"),
        other => panic!("unexpected {:?}", other),
    }
    assert_eq!(
        RemoveError::Unconfirmed.message(),
        "refusing to delete without confirmation: stdin is not a terminal, pass --yes to confirm"
    );
}

#[test]
fn removal_undoes_the_declaration() {
    let sm = remove::run(&one_dep(), &strings(&["ext/dep"]), true, false).unwrap().targets.remove(0);
    let r = remove::removal(&sm);
    assert_eq!(r.deinit, vec!["submodule", "deinit", "-f", "ext/dep"]);
    assert_eq!(r.unstage, vec!["rm", "--cached", "-f", "-q", "--", "ext/dep"]);
    assert_eq!(r.stage, vec!["add", ".gitmodules"]);
    assert_eq!(r.undeclare.len(), 2);
    assert_eq!(remove::removed(&sm).text, "ext/dep removed");
}

// --- init / add -------------------------------------------------------------

#[test]
fn init_selects_all_or_the_named_submodules() {
    let p = init::run(&two_subs(), &Vec::new()).unwrap();
    assert_eq!(p.targets.len(), 2);
    assert!(p.warning.is_none());
    let p = init::run(&two_subs(), &strings(&["ext/b"])).unwrap();
    assert_eq!(p.targets[0].path, "ext/b");
    let p = init::run(&GitConfig::empty(), &Vec::new()).unwrap();
    assert_eq!(p.warning.unwrap().text, "no submodules declared in .gitmodules");
    assert_eq!(
        init::phases(),
        vec![
            InitPhase::Register,
            InitPhase::Pin,
            InitPhase::Prepare,
            InitPhase::EnsureCommit,
            InitPhase::Checkout,
            InitPhase::Hook,
            InitPhase::Report
        ]
    );
}

#[test]
fn add_declares_a_shallow_submodule_and_picks_the_ref() {
    let p = add::run(
        "https://example.com/dep.git".to_string(),
        "ext/dep".to_string(),
        None,
        strings(&["/src/"]),
        None,
        None,
        Some("main".to_string()),
        None,
        None,
        None,
    );
    assert_eq!(p.sm.name, "ext/dep");
    assert!(p.sm.shallow);
    assert_eq!(p.target, "main");
    assert_eq!(p.checkout, "FETCH_HEAD");
    assert_eq!(p.heading.text, "adding submodule ext/dep");
    let p = add::run("u".to_string(), "x".to_string(), Some("n".to_string()), Vec::new(), Some(2), None, Some("main".to_string()), Some("v1".to_string()), None, None);
    assert_eq!(p.sm.name, "n");
    assert_eq!(p.target, "v1");
    let p = add::run("u".to_string(), "x".to_string(), None, Vec::new(), None, None, None, None, None, None);
    assert_eq!(p.target, "HEAD");
    assert_eq!(add::phases()[0], AddPhase::Prepare);
    assert_eq!(*add::phases().last().unwrap(), AddPhase::Report);
}

// --- doctor -----------------------------------------------------------------

fn clean() -> Observed {
    Observed {
        paths: strings(&["ext/dep"]),
        dangling: vec![false],
        gitdirs: strings(&["ext/dep"]),
        submodule_sections: strings(&["ext/dep"]),
        picky_sections: strings(&["ext/dep"]),
    }
}

#[test]
fn doctor_reports_no_issues_when_clean() {
    let r = doctor::run(&clean(), true);
    assert_eq!(texts(&r.messages), vec![(Level::Success, "no issues found".to_string())]);
    assert!(r.error.is_none());
}

#[test]
fn doctor_flags_dangling_orphans_and_half_edits() {
    let o = Observed {
        paths: strings(&["ext/dep"]),
        dangling: vec![true],
        gitdirs: strings(&["ext/dep", "ext/old"]),
        submodule_sections: strings(&["ext/dep"]),
        picky_sections: strings(&["ext/dep", "ext/half"]),
    };
    let r = doctor::run(&o, false);
    assert_eq!(
        texts(&r.messages),
        vec![
            (Level::Warn, "ext/dep: dangling gitlink, `picky init ext/dep` will rebuild it".to_string()),
            (Level::Warn, "orphaned git dir .git/modules/ext/old: no submodule declares this path; remove it with `rm -rf .git/modules/ext/old` if it's no longer needed".to_string()),
            (Level::Warn, "picky.ext/half section in .gitmodules has no matching submodule.ext/half section, probably a half-finished manual edit".to_string()),
            (Level::Plain, "  3 issue(s) found".to_string()),
        ]
    );
    assert!(r.error.is_none(), "doctor is diagnostic-only without --strict");
    let r = doctor::run(&o, true);
    assert_eq!(r.error.as_deref(), Some("3 issue(s) found (--strict)"));
}

#[test]
fn remove_confirmation_prompt_and_answer() {
    assert_eq!(
        remove::prompt(&strings(&["ext/a", "ext/b"])),
        "remove ext/a, ext/b and delete the checkout(s) and their git dirs? [y/N] "
    );
    assert!(remove::confirmed("Y\n"));
    assert!(!remove::confirmed("\n"));
    assert_eq!(RemoveError::Declined.message(), "not confirmed — nothing was removed");
}

#[test]
fn update_target_is_the_ref_or_the_current_head() {
    assert_eq!(update::refresh_target(&Some("v2".to_string()), "abc"), "v2");
    assert_eq!(update::refresh_target(&None, "abc"), "abc");
    assert_eq!(update::rebuild_step().text, "Rebuilding from scratch (--fresh)");
    assert_eq!(update::history_step().text, "Fetching history + tags (blobless)");
}

#[test]
fn update_all_with_nothing_declared_warns() {
    let p = update::run(&GitConfig::empty(), None, None, true).unwrap();
    assert!(p.targets.is_empty());
    let w = p.warning.unwrap();
    assert_eq!((w.level, w.text.as_str()), (Level::Warn, "no submodules declared in .gitmodules"));
}
