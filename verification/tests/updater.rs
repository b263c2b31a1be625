use quark::updater::{release_update, semver_newer};

#[test]
fn test_semver_newer() {
    assert!(semver_newer("0.2.0", "0.1.0"));
    assert!(semver_newer("1.0.0", "0.9.9"));
    assert!(!semver_newer("0.1.0", "0.1.0"));
    assert!(!semver_newer("0.0.9", "0.1.0"));
}

#[test]
fn non_numeric_pieces_are_skipped() {
    // "x" is dropped, so "1.x.2" reads as 1.2.0.
    assert!(semver_newer("1.x.2", "1.1.9"));
    assert!(!semver_newer("1.x.2", "1.2.0"));
    // A leading '+' is accepted by the number parser, a '-' is not.
    assert!(semver_newer("+2", "1.9.9"));
    assert!(!semver_newer("-2", "0.0.0"));
    // Values past u32 do not parse.
    assert!(!semver_newer("4294967296", "0.0.0"));
    assert!(semver_newer("4294967295", "0.0.0"));
}

#[test]
fn release_with_newer_tag_is_an_update() {
    let body = "n".repeat(500);
    let info = release_update("v0.3.1", Some("https://example/r"), Some(&body), "0.3.0").unwrap();
    assert_eq!(info.version, "0.3.1");
    assert_eq!(info.html_url, "https://example/r");
    assert_eq!(info.body.chars().count(), 400);
    assert!(release_update("v0.3.0", None, None, "0.3.0").is_none());
    let info = release_update("vv1.0.0", None, None, "0.3.0").unwrap();
    assert_eq!(info.version, "1.0.0");
    assert_eq!(info.html_url, "");
    assert_eq!(info.body, "");
}

#[test]
fn newer_is_strict() {
    assert!(!semver_newer("1.2.3", "1.2.3"));
    assert!(semver_newer("1.10.0", "1.9.9") && !semver_newer("1.9.9", "1.10.0"));
    assert!(semver_newer("2.0.0", "1.10.0") && semver_newer("2.0.0", "1.9.9"));
}
