use pelper::version::{newer_release, parse_semver, release_tags_args};

#[test]
fn parses_and_orders_versions() {
    assert_eq!(parse_semver("v1.2.3"), Some((1, 2, 3)));
    assert_eq!(parse_semver("0.2.0"), Some((0, 2, 0)));
    assert_eq!(parse_semver("v1.0.0-rc.1"), Some((1, 0, 0)));
    assert_eq!(parse_semver("not-a-version"), None);
    assert!((0, 3, 0) > (0, 2, 9));
    assert!((1, 0, 0) > (0, 9, 9));
}

#[test]
fn semver_edge_cases() {
    assert_eq!(parse_semver("  vv2.0.1  "), Some((2, 0, 1)));
    assert_eq!(parse_semver("1.2"), None);
    assert_eq!(parse_semver("1.2.3.4"), Some((1, 2, 3)));
    assert_eq!(parse_semver("1.2.x"), None);
    assert_eq!(parse_semver("4294967296.0.0"), None);
    assert_eq!(parse_semver(""), None);
}

#[test]
fn newest_tag_above_the_running_version_is_reported() {
    let out = "aaa\trefs/tags/v0.1.0\nbbb\trefs/tags/v0.3.1\nccc\trefs/tags/v0.2.9\nddd\trefs/tags/nightly\n";
    assert_eq!(newer_release(out, (0, 2, 0)), Some("v0.3.1".to_string()));
    assert_eq!(newer_release(out, (0, 3, 1)), None);
    assert_eq!(newer_release(out, (1, 0, 0)), None);
    assert_eq!(newer_release("", (0, 0, 0)), None);
}

#[test]
fn release_check_asks_for_tags_only() {
    assert_eq!(
        release_tags_args("https://example.org/pelper"),
        vec!["ls-remote", "--tags", "--refs", "https://example.org/pelper"]
    );
}
