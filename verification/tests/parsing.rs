use picky::git::{parse_version, MIN_VERSION};
use picky::refcache::{fnv1a, parse};

#[test]
fn parse_version_handles_plain_and_suffixed_output() {
    assert_eq!(parse_version("git version 2.55.0\n"), Some((2, 55, 0)));
    assert_eq!(
        parse_version("git version 2.39.2 (Apple Git-143)\n"),
        Some((2, 39, 2))
    );
    assert_eq!(
        parse_version("git version 2.41.0.windows.1\n"),
        Some((2, 41, 0))
    );
    assert_eq!(parse_version("not git at all"), None);
}

#[test]
fn min_version_ordering() {
    assert!((2, 40, 9) < MIN_VERSION);
    assert!((2, 41, 0) >= MIN_VERSION);
    assert!((3, 0, 0) >= MIN_VERSION);
}

#[test]
fn parse_strips_prefixes_and_skips_other_refs() {
    let out = "deadbeef\trefs/heads/main\n\
               cafef00d\trefs/tags/v1.6.3\n\
               0badf00d\trefs/pull/7/head\n";
    assert_eq!(parse(out), vec!["main", "v1.6.3"]);
}

#[test]
fn fnv_is_stable_and_hex() {
    assert_eq!(fnv1a("https://example.com/x.git").len(), 16);
    assert_eq!(fnv1a("a"), fnv1a("a"));
    assert_ne!(fnv1a("a"), fnv1a("b"));
}
