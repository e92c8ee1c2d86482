use findout::release::{github_release_urls, is_newer_version, releases_page, version_parts};

#[test]
fn compares_release_versions() {
    assert!(is_newer_version("v0.2.0", "0.1.0"));
    assert!(is_newer_version("0.1.1", "0.1.0"));
    assert!(is_newer_version("v0.10.0", "0.9.0"));
    assert!(!is_newer_version("v0.1.0", "0.1.0"));
    assert!(!is_newer_version("v0.0.9", "0.1.0"));
    assert!(!is_newer_version("latest", "0.1.0"));
}

#[test]
fn versions_have_exactly_three_numbers() {
    assert_eq!(version_parts("v1.2.3"), Some([1, 2, 3]));
    assert_eq!(version_parts("10.0.7"), Some([10, 0, 7]));
    assert_eq!(version_parts("1.2"), None);
    assert_eq!(version_parts("1.2.3.4"), None);
    assert_eq!(version_parts("1.2.x"), None);
    assert_eq!(version_parts("vv1.2.3"), None);
    assert_eq!(version_parts("1..3"), None);
    assert!(!is_newer_version("0.2.0", "garbage"));
    assert!(is_newer_version("1.0.0", "0.99.99"));
}

#[test]
fn release_urls_need_owner_and_repository() {
    assert_eq!(
        github_release_urls(Some("owner/repo.rs")),
        Some((
            "https://api.github.com/repos/owner/repo.rs/releases/latest".to_owned(),
            "https://github.com/owner/repo.rs/releases".to_owned()
        ))
    );
    assert_eq!(github_release_urls(None), None);
    assert_eq!(github_release_urls(Some("owner")), None);
    assert_eq!(github_release_urls(Some("a/b/c")), None);
    assert_eq!(github_release_urls(Some("a/")), None);
    assert_eq!(github_release_urls(Some("a b/c")), None);
    assert_eq!(github_release_urls(Some("a_b-c/d")).is_some(), true);
}

#[test]
fn whats_new_opens_the_release_notes() {
    let page = "https://github.com/o/r/releases";
    assert_eq!(
        releases_page(page, true, "0.2.0"),
        "https://github.com/o/r/releases/tag/v0.2.0"
    );
    assert_eq!(releases_page(page, false, "0.2.0"), page);
}

