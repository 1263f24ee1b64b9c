use cargo_cli::version;

#[test]
fn version_line_uses_configured_release() {
    assert_eq!(version(Some("0.0.1-pre (abc 2014-10-01)"), "0", "0", "1", None), "cargo 0.0.1-pre (abc 2014-10-01)");
}

#[test]
fn version_line_from_package_parts() {
    assert_eq!(version(None, "0", "0", "1", Some("-pre")), "cargo 0.0.1-pre");
    assert_eq!(version(None, "1", "2", "3", None), "cargo 1.2.3");
}
