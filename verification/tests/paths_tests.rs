use air_traffic_control::errors::ErrorKind;
use air_traffic_control::hosts::is_allowed_host;
use air_traffic_control::paths::path_within;
use air_traffic_control::paths::resolve_under_root;
use air_traffic_control::paths::sandbox_resolve;

#[test]
fn resolve_denies_path_traversal() {
    let dir = tempfile::tempdir().unwrap();
    let root = dir.path().to_string_lossy().to_string();
    let outside = resolve_under_root(&root, "../etc/passwd");
    assert!(outside.is_none());
}

#[test]
fn resolve_denies_absolute_sibling() {
    assert_eq!(resolve_under_root("/tmp/root", "/etc/passwd"), None);
}

#[test]
fn resolve_denies_nested_traversal() {
    assert_eq!(resolve_under_root("/tmp/root", "a/../../../etc/passwd"), None);
}

#[test]
fn resolve_admits_plain_relative_path() {
    assert_eq!(
        resolve_under_root("/tmp/root", "a.txt"),
        Some("/tmp/root/a.txt".to_string())
    );
}

#[test]
fn resolve_collapses_dots_inside_root() {
    assert_eq!(
        resolve_under_root("/tmp/root", "dir/./../a.txt"),
        Some("/tmp/root/a.txt".to_string())
    );
    assert_eq!(
        resolve_under_root("/tmp/root", "."),
        Some("/tmp/root".to_string())
    );
}

#[test]
fn resolve_admits_absolute_path_inside_root() {
    assert_eq!(
        resolve_under_root("/tmp/root", "/tmp/root/sub/a.txt"),
        Some("/tmp/root/sub/a.txt".to_string())
    );
}

#[test]
fn resolve_refuses_relative_root() {
    assert_eq!(resolve_under_root("relative/root", "a.txt"), None);
}

#[test]
fn sandbox_escape_is_path_escape() {
    assert_eq!(
        sandbox_resolve("/tmp/root", "../etc/passwd"),
        Err(ErrorKind::PathEscape)
    );
    assert_eq!(
        sandbox_resolve("/tmp/root", "ok.txt"),
        Ok("/tmp/root/ok.txt".to_string())
    );
}

#[test]
fn allowlist_absent_or_empty_denies() {
    assert!(!is_allowed_host(&None, "example.com"));
    assert!(!is_allowed_host(&Some(vec![]), "example.com"));
}

#[test]
fn allowlist_matches_case_insensitively() {
    let allow = Some(vec!["Example.COM".to_string(), "127.0.0.1".to_string()]);
    assert!(is_allowed_host(&allow, "example.com"));
    assert!(is_allowed_host(&allow, "EXAMPLE.com"));
    assert!(is_allowed_host(&allow, "127.0.0.1"));
    assert!(!is_allowed_host(&allow, "evil.com"));
    assert!(!is_allowed_host(&allow, "sub.example.com"));
}

#[test]
fn path_within_checks_component_prefixes() {
    assert!(path_within("/tmp/root", "/tmp/root/a/b.txt"));
    assert!(path_within("/tmp/root", "/tmp/root"));
    assert!(!path_within("/tmp/root", "/tmp/rootster/a"));
    assert!(!path_within("/tmp/root", "/etc/passwd"));
}
