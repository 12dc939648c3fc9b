use picky::commands::status::{self, RowFacts};
use picky::completion;
use picky::config::{GitConfig, Submodule};
use picky::console::{self, Console, Level, SinkKind, Tint};
use picky::git::{self, Outcome, VersionError};
use picky::hook::{self, Trust};
use picky::patch::{self, StackRun};
use picky::refcache::{self, Cached, RefsFor};
use picky::sparse::{self, GitDirAction};

fn dep() -> Submodule {
    Submodule {
        name: "ext/dep".to_string(),
        path: "ext/dep".to_string(),
        url: "https://example.com/dep.git".to_string(),
        branch: Some("main".to_string()),
        shallow: true,
        sparse: vec!["/src/".to_string()],
        depth: None,
        filter: None,
        patches: Some("patches".to_string()),
        post_update: Some("make gen".to_string()),
    }
}

fn strings(v: &[&str]) -> Vec<String> {
    v.iter().map(|s| s.to_string()).collect()
}

fn outcome(success: bool, stdout: &str, stderr: &str) -> Outcome {
    Outcome { success, stdout: stdout.to_string(), stderr: stderr.to_string() }
}

// --- git --------------------------------------------------------------------

#[test]
fn check_version_accepts_new_enough_git() {
    assert_eq!(git::check_version(true, "git version 2.41.0\n").unwrap(), (2, 41, 0));
    assert!(matches!(git::check_version(false, ""), Err(VersionError::Failed)));
    match git::check_version(true, "  hello \n") {
        Err(e @ VersionError::Unparseable(_)) => {
            assert_eq!(e.message(), "couldn't parse git version from: hello")
        }
        other => panic!("unexpected {:?}", other),
    }
    let e = git::check_version(true, "git version 2.39.2 (Apple Git-143)").unwrap_err();
    assert_eq!(
        e.message(),
        "picky requires git >= 2.41.0 (for GIT_NO_LAZY_FETCH), found 2.39.2; please upgrade"
    );
    assert!(git::is_older((2, 40, 9), git::MIN_VERSION));
    assert!(!git::is_older((2, 41, 0), git::MIN_VERSION));
}

#[test]
fn parse_version_defaults_missing_patch_to_zero() {
    assert_eq!(git::parse_version("git version 2.45"), Some((2, 45, 0)));
    assert_eq!(git::parse_version("git version 2"), None);
}

#[test]
fn capture_trims_output_and_quotes_the_call_on_failure() {
    let args = strings(&["rev-parse", "HEAD"]);
    assert_eq!(git::capture(&args, &outcome(true, "abc\n\n", "")).unwrap(), "abc");
    let e = git::capture(&args, &outcome(false, "", "fatal: bad\n")).unwrap_err();
    assert_eq!(e.message, "`git rev-parse HEAD` failed:\nfatal: bad");
    assert!(git::run(&args, true, "exit status: 0").is_ok());
    assert_eq!(
        git::run(&args, false, "exit status: 1").unwrap_err().message,
        "`git rev-parse HEAD` exited with exit status: 1"
    );
    assert_eq!(git::capture_opt(&outcome(true, "v \n", "")), Some("v".to_string()));
    assert_eq!(git::capture_opt(&outcome(false, "v", "")), None);
    assert!(git::ok(&outcome(true, "", "")));
    assert!(!git::ok(&outcome(false, "", "")));
}

#[test]
fn repo_root_failure_names_the_cause() {
    assert_eq!(picky::repo_root(&outcome(true, "/work/repo\n", "")).unwrap(), "/work/repo");
    let e = picky::repo_root(&outcome(false, "", "fatal: not a git repository\n")).unwrap_err();
    assert_eq!(
        e.message,
        "not inside a git repository: `git rev-parse --show-toplevel` failed:\nfatal: not a git repository"
    );
}

// --- sparse checkout plumbing -------------------------------------------------

#[test]
fn prepare_configures_partial_clone_and_sparse_checkout() {
    let p = sparse::prepare(&dep(), false);
    assert_eq!(p.step.text, "Configuring remote and sparse checkout");
    assert_eq!(
        p.calls,
        vec![
            strings(&["remote", "add", "origin", "https://example.com/dep.git"]),
            strings(&["config", "extensions.partialClone", "origin"]),
            strings(&["config", "remote.origin.promisor", "true"]),
            strings(&["config", "remote.origin.partialclonefilter", "blob:none"]),
            strings(&["config", "core.sparseCheckout", "true"]),
            strings(&["config", "core.sparseCheckoutCone", "false"]),
        ]
    );
    assert_eq!(p.sparse_file.as_deref(), Some("/src/\n"));
    let mut full = dep();
    full.sparse.clear();
    full.filter = Some("none".to_string());
    let p = sparse::prepare(&full, true);
    assert_eq!(p.calls[0], strings(&["remote", "set-url", "origin", "https://example.com/dep.git"]));
    assert_eq!(p.calls.len(), 5);
    assert_eq!(p.calls[3], strings(&["config", "core.sparseCheckout", "false"]));
    assert!(p.sparse_file.is_none());
}

#[test]
fn fetch_is_shallow_and_blobless() {
    let mut sm = dep();
    assert_eq!(
        sparse::fetch_args(&sm, "v1.0"),
        strings(&["fetch", "-q", "--filter=blob:none", "--depth=1", "origin", "v1.0"])
    );
    sm.depth = Some(12);
    sm.filter = Some("tree:0".to_string());
    assert_eq!(
        sparse::fetch_args(&sm, "main"),
        strings(&["fetch", "-q", "--filter=tree:0", "--depth=12", "origin", "main"])
    );
    let (m, _) = sparse::fetch_ref(&sm, "main");
    assert_eq!(m.text, "Fetching main (shallow, blobless)");
    assert!(sparse::ensure_commit(&sm, "abc", true).is_none());
    assert!(sparse::ensure_commit(&sm, "abc", false).is_some());
    assert_eq!(sparse::commit_probe("abc"), strings(&["cat-file", "-e", "abc^{commit}"]));
}

#[test]
fn checkout_detaches_and_reapplies_patterns() {
    let (m, calls) = sparse::checkout(&dep(), "FETCH_HEAD");
    assert_eq!(m.text, "Checking out FETCH_HEAD");
    assert_eq!(
        calls,
        vec![
            strings(&["checkout", "-q", "-f", "--detach", "FETCH_HEAD"]),
            strings(&["sparse-checkout", "reapply"]),
        ]
    );
}

#[test]
fn pin_size_and_git_dir_decisions() {
    assert_eq!(
        sparse::pinned_sha("ext/dep", "160000 0123abcd 0\text/dep\n").unwrap(),
        "0123abcd"
    );
    assert_eq!(
        sparse::pinned_sha("ext/dep", "").unwrap_err(),
        "no gitlink for 'ext/dep' in the index"
    );
    assert_eq!(sparse::worktree_size("12M\text/dep\n"), Some("12M".to_string()));
    assert_eq!(sparse::worktree_size(""), None);
    assert!(matches!(sparse::gitdir_action(true, true, true).0, GitDirAction::Keep));
    assert!(matches!(sparse::gitdir_action(false, false, false).0, GitDirAction::Create));
    let (a, m) = sparse::gitdir_action(true, false, false);
    assert!(matches!(a, GitDirAction::Rebuild { is_dir: false }));
    assert_eq!(m.unwrap().text, "Rebuilding git dir (stale gitlink)");
    assert_eq!(sparse::gitdir(&dep()), strings(&["rev-parse", "--git-path", "modules/ext/dep"]));
}

// --- hook trust -------------------------------------------------------------

#[test]
fn hook_runs_only_when_text_and_sha_are_both_approved() {
    let cmd = "make gen";
    let rec_cmd = Some(cmd.to_string());
    let rec_sha = Some("aaaa".to_string());
    assert!(matches!(hook::trust_decision(cmd, "aaaa", &rec_cmd, &rec_sha, false, false), Trust::Trusted));
    // A SHA bump re-arms the prompt even with identical hook text.
    assert!(matches!(hook::trust_decision(cmd, "bbbb", &rec_cmd, &rec_sha, false, false), Trust::Refuse));
    assert!(matches!(hook::trust_decision("make all", "aaaa", &rec_cmd, &rec_sha, false, true), Trust::Ask));
    assert!(matches!(hook::trust_decision(cmd, "bbbb", &rec_cmd, &rec_sha, true, false), Trust::Record));
    assert!(matches!(hook::trust_decision(cmd, "aaaa", &None, &None, false, true), Trust::Ask));
}

#[test]
fn approval_answers() {
    assert!(hook::approved("y\n"));
    assert!(hook::approved("  YES "));
    assert!(!hook::approved("n"));
    assert!(!hook::approved(""));
    assert!(!hook::approved("yess"));
}

#[test]
fn approval_is_recorded_in_local_config() {
    let sm = dep();
    assert_eq!(hook::trust_key(&sm), "picky.ext/dep.trustedPostUpdate");
    assert_eq!(hook::trust_sha_key(&sm), "picky.ext/dep.trustedPostUpdateSha");
    assert_eq!(
        hook::record_calls(&sm, "make gen", "aaaa"),
        vec![
            strings(&["config", "picky.ext/dep.trustedPostUpdate", "make gen"]),
            strings(&["config", "picky.ext/dep.trustedPostUpdateSha", "aaaa"]),
        ]
    );
    let m = hook::refusal(&sm, "make gen", "aaaa");
    assert!(m.contains("trust it directly"));
    assert!(m.contains("approve") || m.contains("Approve"));
    assert_eq!(
        hook::rejection(&sm),
        "post-update hook for ext/dep was not approved — re-run and accept, or remove `picky.ext/dep.postUpdate` from .gitmodules"
    );
    assert_eq!(hook::failure(&sm, "exit status: 3"), "post-update hook for ext/dep failed (exit status: 3)");
    let w = hook::warning(&sm, "make gen");
    assert_eq!(w[0].level, Level::Warn);
    assert_eq!(w[1].text, "  make gen");
}

#[test]
fn hook_environment_describes_the_checkout() {
    let env = hook::hook_env("/repo", &dep(), "aaaa");
    assert_eq!(
        env,
        vec![
            ("PICKY_ROOT".to_string(), "/repo".to_string()),
            ("PICKY_SUBMODULE_NAME".to_string(), "ext/dep".to_string()),
            ("PICKY_SUBMODULE_PATH".to_string(), "ext/dep".to_string()),
            ("PICKY_SUBMODULE_SHA".to_string(), "aaaa".to_string()),
        ]
    );
}

// --- patches ----------------------------------------------------------------

#[test]
fn patch_stack_is_the_patch_files_in_lexical_order() {
    let entries = strings(&["0002-b.patch", "README", ".patch", "0001-a.patch", "0010-c.patch", "x.patch.orig"]);
    assert_eq!(patch::patch_names(&entries), vec!["0001-a.patch", "0002-b.patch", "0010-c.patch"]);
    assert!(patch::is_patch("a.patch"));
    assert!(!patch::is_patch(".patch"));
    assert_eq!(patch::apply_args("/p/0001.patch"), strings(&["apply", "--3way", "/p/0001.patch"]));
    assert_eq!(patch::stack_step("patches").text, "Applying patch stack from patches/");
}

#[test]
fn patch_stack_run_counts_and_fails_on_broken_patches() {
    let sm = dep();
    let mut run = StackRun::new();
    let m = run.record("0001-good.patch", true);
    assert_eq!((m.level, m.text.as_str()), (Level::Item, "applied  0001-good.patch"));
    assert_eq!(run.finish(&sm, "patches").unwrap(), 1);
    let m = run.record("0002-bad.patch", false);
    assert_eq!((m.level, m.text.as_str()), (Level::Error, "FAILED   0002-bad.patch"));
    assert_eq!(
        run.finish(&sm, "patches").unwrap_err(),
        "patch(es) need rebasing: 0002-bad.patch\n  Conflict markers are left in ext/dep: resolve them, regenerate the patch (git -C ext/dep diff HEAD > patches/...), or retire it."
    );
}

// --- ref cache ----------------------------------------------------------------

#[test]
fn cache_file_name_is_the_fnv1a_hex_of_the_url() {
    assert_eq!(refcache::fnv1a(""), "cbf29ce484222325");
    assert_eq!(refcache::fnv1a("a"), "af63dc4c8601ec8c");
}

#[test]
fn ls_remote_entries_keep_the_tip_shas() {
    let out = "deadbeef\trefs/heads/main\ncafef00d\trefs/tags/v1.6.3\n0badf00d\trefs/pull/7/head\n";
    assert_eq!(
        refcache::parse_entries(out),
        vec![
            ("main".to_string(), "deadbeef".to_string()),
            ("v1.6.3".to_string(), "cafef00d".to_string()),
        ]
    );
    assert_eq!(refcache::strip("refs/tags/v1"), Some("v1".to_string()));
    assert_eq!(refcache::strip("refs/heads/dev"), Some("dev".to_string()));
    assert_eq!(refcache::strip("refs/pull/1"), None);
}

#[test]
fn local_refs_are_tags_and_origin_branches_without_head() {
    let out = "refs/tags/v1\nrefs/remotes/origin/HEAD\nrefs/remotes/origin/main\nrefs/heads/local\n";
    assert_eq!(refcache::local_refs(out), vec!["v1", "main"]);
}

#[test]
fn cache_text_reads_back_what_was_written() {
    let entries = vec![
        ("main".to_string(), "deadbeef".to_string()),
        ("v1.6.3".to_string(), "cafef00d".to_string()),
    ];
    let body = refcache::cache_body(&entries);
    assert_eq!(body, "main\tdeadbeef\nv1.6.3\tcafef00d");
    let c = Cached::from_text(&body, true);
    assert_eq!(c.entries, entries);
    assert_eq!(c.refs(), vec!["main", "v1.6.3"]);
    assert_eq!(c.sha(&"v1.6.3".to_string()), Some("cafef00d".to_string()));
    assert_eq!(c.sha(&"nope".to_string()), None);
}

#[test]
fn older_cache_files_with_bare_names_still_read() {
    let c = Cached::from_text("main\n\nv2\n", false);
    assert_eq!(c.refs(), vec!["main", "v2"]);
    assert_eq!(c.sha(&"main".to_string()), None);
}

#[test]
fn stale_cache_is_served_with_a_refresh() {
    assert!(refcache::is_fresh(0));
    assert!(refcache::is_fresh(3599));
    assert!(!refcache::is_fresh(3600));
    match refcache::refs_for(Some(Cached::from_text("v1\tab", false))) {
        RefsFor::Ready { refs, refresh } => {
            assert_eq!(refs, vec!["v1"]);
            assert!(refresh);
        }
        other => panic!("unexpected {:?}", other),
    }
    match refcache::refs_for(Some(Cached::from_text("v1\tab", true))) {
        RefsFor::Ready { refresh, .. } => assert!(!refresh),
        other => panic!("unexpected {:?}", other),
    }
    assert!(matches!(refcache::refs_for(None), RefsFor::Fetch));
    assert_eq!(refcache::candidates(&strings(&["v2", "main", "v2", "a"])), vec!["a", "main", "v2"]);
}

// --- status -----------------------------------------------------------------

fn facts(pin: Option<&str>, cache: Option<Cached>) -> RowFacts {
    RowFacts {
        pin: pin.map(str::to_string),
        checked_out: true,
        size: Some("12M".to_string()),
        patch_count: Some(2),
        cache,
    }
}

#[test]
fn upstream_column_reflects_the_cache() {
    let sm = dep();
    assert_eq!(status::upstream_status(&sm, &Some("aaaa1111bbbb".to_string()), &None), "?");
    let stale = Some(Cached::from_text("main\tcccc2222dddd", true));
    assert_eq!(status::upstream_status(&sm, &Some("aaaa1111bbbb".to_string()), &stale), "stale→cccc2222");
    let current = Some(Cached::from_text("main\taaaa1111bbbb", true));
    assert_eq!(status::upstream_status(&sm, &Some("aaaa1111bbbb".to_string()), &current), "current");
    let mut untracked = dep();
    untracked.branch = None;
    assert_eq!(status::upstream_status(&untracked, &Some("a".to_string()), &current), "-");
}

#[test]
fn status_row_cells() {
    let row = status::row(&dep(), &facts(Some("0123456789abcdef"), None));
    assert_eq!(row.to_vec(), strings(&["ext/dep", "01234567", "main", "?", "on(1)", "blob:none", "12M", "2"]));
    let mut f = facts(None, None);
    f.checked_out = false;
    f.patch_count = None;
    let mut sm = dep();
    sm.sparse.clear();
    sm.filter = Some("none".to_string());
    assert_eq!(status::row(&sm, &f).to_vec(), strings(&["ext/dep", "-", "main", "-", "off", "none", "-", "-"]));
}

#[test]
fn status_json_is_an_array_of_objects() {
    let rows = vec![status::row(&dep(), &facts(Some("0123456789abcdef"), None))];
    let out = status::run(&rows, true);
    assert_eq!(out.len(), 1);
    assert_eq!(
        out[0].text,
        "[\n  {\"submodule\": \"ext/dep\", \"pin\": \"01234567\", \"branch\": \"main\", \"upstream\": \"?\", \"sparse\": \"on(1)\", \"filter\": \"blob:none\", \"size\": \"12M\", \"patches\": \"2\"}\n]"
    );
    assert_eq!(status::run(&Vec::new(), true)[0].text, "[]");
    let mut escaped = String::new();
    status::json_escape_into("a\"b\\c\nd\u{1}", &mut escaped);
    assert_eq!(escaped, "a\\\"b\\\\c\\nd\\u0001");
}

#[test]
fn status_table_pads_columns_and_explains_unknown_upstream() {
    let rows = vec![status::row(&dep(), &facts(Some("0123456789abcdef"), None))];
    let out = status::run(&rows, false);
    assert_eq!(out[0].level, Level::Heading);
    assert_eq!(out[0].text, "SUBMODULE  PIN       BRANCH  UPSTREAM  SPARSE  FILTER     SIZE  PATCHES");
    assert_eq!(out[1].text, "ext/dep    01234567  main    ?         on(1)   blob:none  12M   2");
    assert_eq!(out[2].text, "  '?' = no cached ref data yet; run `picky refresh` to check for updates");
    let none = status::run(&Vec::new(), false);
    assert_eq!((none[0].level, none[0].text.as_str()), (Level::Warn, "no submodules declared in .gitmodules"));
}

// --- console ----------------------------------------------------------------

#[test]
fn console_filters_by_quiet_and_verbose() {
    let c = Console::new(true, false);
    assert!(c.step("s").is_none());
    assert!(c.item("i").is_none());
    assert!(c.success("ok").is_none());
    assert!(c.detail("d").is_none());
    assert_eq!(c.heading("h").unwrap().level, Level::Heading);
    assert_eq!(c.warn("w").unwrap().text, "w");
    assert!(c.error("e").is_some());
    assert!(c.plain("p").is_some());
    let v = Console::new(false, true);
    assert_eq!(v.detail("d").unwrap().level, Level::Detail);
    assert!(v.step("s").is_some());
    let q = picky::quiet();
    assert!(q.quiet && !q.verbose);
    assert_eq!(q.sink, SinkKind::Terminal);
}

#[test]
fn silent_console_drops_everything_and_sinks_see_all() {
    let s = Console::silent();
    assert!(s.error("e").is_none());
    assert!(s.plain("p").is_none());
    let w = Console::with_sink();
    assert!(w.detail("d").is_some());
    assert_eq!(w.sink, SinkKind::Custom);
}

#[test]
fn level_labels_and_terminal_layout() {
    assert_eq!(Level::Step.as_str(), "step");
    assert_eq!(Level::Error.as_str(), "error");
    let l = console::terminal_layout(Level::Warn);
    assert!(l.to_stderr);
    assert_eq!(l.tag, Some("warning:"));
    assert_eq!(l.tint, Some(Tint::Yellow));
    let l = console::terminal_layout(Level::Detail);
    assert!(!l.to_stderr);
    assert_eq!(l.indent, 3);
    assert!(l.dimmed);
    assert_eq!(console::terminal_layout(Level::Success).tag, Some("✓"));
}

// --- completion -------------------------------------------------------------

#[test]
fn update_completion_targets_the_named_or_lone_submodule() {
    let cfg = GitConfig::parse(
        "submodule.a.path\next/a\0submodule.a.url\nua\0submodule.b.path\next/b\0submodule.b.url\nub\0",
    );
    let args = strings(&["picky", "--", "picky", "update", "--unshallow", "ext/b", ""]);
    assert_eq!(completion::update_submodule(&cfg, &args).unwrap().path, "ext/b");
    let args = strings(&["picky", "--", "picky", "update", ""]);
    assert!(completion::update_submodule(&cfg, &args).is_none());
    let one = GitConfig::parse("submodule.a.path\next/a\0submodule.a.url\nua\0");
    assert_eq!(completion::update_submodule(&one, &args).unwrap().path, "ext/a");
}


#[test]
fn auto_gc_only_when_asked() {
    assert!(sparse::auto_gc(false).is_none());
    assert_eq!(sparse::auto_gc(true).unwrap(), strings(&["gc", "--auto", "--quiet"]));
    let m = sparse::auto_gc_warning("boom");
    assert_eq!((m.level, m.text.as_str()), (Level::Warn, "auto-gc failed: boom"));
}

#[test]
fn patch_stack_starts_only_with_patch_files_in_a_directory() {
    let sm = dep();
    let entries = strings(&["0002-b.patch", "notes.txt", "0001-a.patch"]);
    let (step, names) = patch::stack_plan(&sm, true, &entries).unwrap();
    assert_eq!(step.text, "Applying patch stack from patches/");
    assert_eq!(names, strings(&["0001-a.patch", "0002-b.patch"]));
    assert!(patch::stack_plan(&sm, false, &entries).is_none());
    assert!(patch::stack_plan(&sm, true, &strings(&["notes.txt"])).is_none());
    let mut plain = dep();
    plain.patches = None;
    assert!(patch::stack_plan(&plain, true, &entries).is_none());
}

#[test]
fn completion_without_cache_prefers_the_remote_then_local_refs() {
    let remote = vec![
        ("v2".to_string(), "bb".to_string()),
        ("main".to_string(), "aa".to_string()),
    ];
    let f = refcache::fetched(Some(remote.clone()), None);
    assert_eq!(f.refs, strings(&["main", "v2"]));
    assert_eq!(f.store, Some(remote));
    let f = refcache::fetched(None, Some("refs/tags/v1\nrefs/remotes/origin/dev\n".to_string()));
    assert_eq!(f.refs, strings(&["dev", "v1"]));
    assert!(f.store.is_none());
    let f = refcache::fetched(None, None);
    assert!(f.refs.is_empty());
}

#[test]
fn cache_names_of_urls_differing_in_the_last_byte_differ() {
    assert_ne!(refcache::fnv1a("https://x/a"), refcache::fnv1a("https://x/b"));
    assert_ne!(refcache::fnv1a("a"), refcache::fnv1a("b"));
}

#[test]
fn hook_result_follows_its_exit_status() {
    assert!(hook::outcome(&dep(), true, "exit status: 0").is_ok());
    assert_eq!(
        hook::outcome(&dep(), false, "exit status: 3").unwrap_err(),
        "post-update hook for ext/dep failed (exit status: 3)"
    );
}
