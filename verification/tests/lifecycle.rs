use findout::lifecycle::{
    desktop_entry, digest, launch_agent, origins_to_forget, remember_origin, select_update_asset,
    install_copy, may_uninstall, set_autostart, update_asset_name, updated_version, verify, verify_download, whats_new,
    xml_text, Asset, GitHubRelease, InstallState, LauncherChange, MAX_UPDATE_BYTES,
};

#[test]
fn update_assets_match_platform_and_architecture() {
    assert_eq!(
        update_asset_name("macos", "aarch64"),
        Some("findout-client-macos-aarch64")
    );
    assert_eq!(
        update_asset_name("macos", "x86_64"),
        Some("findout-client-macos-x86_64")
    );
    assert_eq!(
        update_asset_name("windows", "x86_64"),
        Some("findout-client-windows-x86_64.exe")
    );
    assert_eq!(
        update_asset_name("linux", "x86_64"),
        Some("findout-client-linux-x86_64")
    );
    assert_eq!(update_asset_name("linux", "aarch64"), None);
}

#[test]
fn launch_agent_escapes_paths_as_data() {
    let plist =
        launch_agent("/Users/a & <b>/Applications/FindOut.app/Contents/MacOS/findout-client");
    assert!(plist.contains("/Users/a &amp; &lt;b&gt;/Applications/"));
    assert!(plist.contains("<key>RunAtLoad</key><true/>"));
    assert!(!plist.contains("KeepAlive"));
}

#[test]
fn rejects_corrupt_or_missing_digest() {
    let mut a = Asset {
        name: String::new(),
        browser_download_url: String::new(),
        digest: Some(digest(b"binary")),
        size: 6,
    };
    assert!(verify(b"binary", &a).is_ok());
    assert!(verify(b"binarx", &a).is_err());
    assert!(verify(b"", &a).is_err());
    a.digest = None;
    assert!(verify(b"binary", &a).is_err());
}

fn empty_state() -> InstallState {
    InstallState { origins: Vec::new(), updated_version: String::new(), updated_at: 0 }
}

#[test]
fn remembering_an_origin_twice_records_it_once() {
    let mut s = empty_state();
    assert!(remember_origin(&mut s, "https://example.test"));
    assert!(!remember_origin(&mut s, "https://example.test"));
    assert_eq!(s.origins, vec!["https://example.test".to_owned()]);
    assert!(remember_origin(&mut s, "https://other.test"));
    assert_eq!(s.origins.len(), 2);
}

#[test]
fn whats_new_lasts_one_hour_after_the_update() {
    let mut s = empty_state();
    s.updated_version = "1.2.3".to_owned();
    s.updated_at = 1_000;
    assert!(whats_new(&s, "1.2.3", 1_000));
    assert!(whats_new(&s, "1.2.3", 4_599));
    assert!(!whats_new(&s, "1.2.3", 4_600));
    assert!(!whats_new(&s, "1.2.3", 999));
    assert!(!whats_new(&s, "1.2.4", 1_000));
}

#[test]
fn uninstall_forgets_each_origin_once_in_order() {
    let mut s = empty_state();
    s.origins = vec!["https://b.test".to_owned(), "https://a.test".to_owned()];
    assert_eq!(
        origins_to_forget(&s, "https://b.test"),
        vec!["https://a.test".to_owned(), "https://b.test".to_owned()]
    );
    assert_eq!(
        origins_to_forget(&s, "https://c.test"),
        vec![
            "https://a.test".to_owned(),
            "https://b.test".to_owned(),
            "https://c.test".to_owned()
        ]
    );
}

#[test]
fn autostart_needs_the_installed_copy() {
    assert_eq!(set_autostart(false, true).err().unwrap(), "Install FindOut first");
    assert!(matches!(set_autostart(true, true), Ok(LauncherChange::Write)));
    assert!(matches!(set_autostart(true, false), Ok(LauncherChange::Remove)));
}

#[test]
fn xml_text_escapes_markup() {
    assert_eq!(xml_text("a&<>\"'b"), "a&amp;&lt;&gt;&quot;&apos;b");
}

#[test]
fn desktop_entry_quotes_the_executable() {
    assert_eq!(
        desktop_entry("/home/a b/$x`\"%\\").unwrap(),
        "[Desktop Entry]\nType=Application\nName=FindOut\nExec=\"/home/a b/\\\\$x\\\\`\\\\\"%%\\\\\\\\\"\nTerminal=false\n"
    );
    assert_eq!(
        desktop_entry("/tmp/a\nb").err().unwrap(),
        "Installation path contains a newline"
    );
    assert!(desktop_entry("/tmp/a\rb").is_err());
}

#[test]
fn digest_is_prefixed_lower_hex_sha256() {
    assert_eq!(
        digest(b"binary"),
        "sha256:9a3a45d01531a20e89ac6ae10b0b0beb0492acd7216a368aa062d1a5fecaf9cd"
    );
}

fn release_with(asset: Asset) -> GitHubRelease {
    GitHubRelease { tag_name: "v0.2.0".to_owned(), assets: vec![asset] }
}

fn linux_asset(url: &str, size: u64) -> Asset {
    Asset {
        name: "findout-client-linux-x86_64".to_owned(),
        browser_download_url: url.to_owned(),
        digest: None,
        size,
    }
}

const RELEASES: &str = "https://github.com/o/r/releases";
const GOOD_URL: &str = "https://github.com/o/r/releases/download/v0.2.0/findout-client-linux-x86_64";

#[test]
fn update_asset_selection_checks_origin_and_size() {
    let release = release_with(linux_asset(GOOD_URL, 10));
    let chosen = select_update_asset(true, &release, "linux", "x86_64", Some(RELEASES)).unwrap();
    assert_eq!(chosen.name, "findout-client-linux-x86_64");
    assert_eq!(chosen.browser_download_url, GOOD_URL);
    assert_eq!(
        select_update_asset(true, &release, "freebsd", "x86_64", Some(RELEASES)).err().unwrap(),
        "No update is available for this platform or architecture"
    );
    assert_eq!(
        select_update_asset(true, &release, "windows", "x86_64", Some(RELEASES)).err().unwrap(),
        "This release has no automatic update asset. Please download it from GitHub."
    );
    assert_eq!(
        select_update_asset(true, &release, "linux", "x86_64", None).err().unwrap(),
        "Missing release repository"
    );
    let elsewhere = release_with(linux_asset(
        "https://example.test/o/r/releases/download/v0.2.0/findout-client-linux-x86_64",
        10,
    ));
    assert_eq!(
        select_update_asset(true, &elsewhere, "linux", "x86_64", Some(RELEASES)).err().unwrap(),
        "Invalid update URL"
    );
    let empty = release_with(linux_asset(GOOD_URL, 0));
    assert_eq!(
        select_update_asset(true, &empty, "linux", "x86_64", Some(RELEASES)).err().unwrap(),
        "Invalid update size"
    );
    let huge = release_with(linux_asset(GOOD_URL, MAX_UPDATE_BYTES + 1));
    assert!(select_update_asset(true, &huge, "linux", "x86_64", Some(RELEASES)).is_err());
    let largest = release_with(linux_asset(GOOD_URL, MAX_UPDATE_BYTES));
    assert!(select_update_asset(true, &largest, "linux", "x86_64", Some(RELEASES)).is_ok());
}

#[test]
fn downloads_must_use_https_and_match() {
    let mut a = linux_asset(GOOD_URL, 6);
    a.digest = Some(digest(b"binary"));
    assert!(verify_download(GOOD_URL, b"binary", &a).is_ok());
    assert_eq!(
        verify_download("http://github.com/x", b"binary", &a).err().unwrap(),
        "Update requires HTTPS"
    );
    assert_eq!(
        verify_download(GOOD_URL, b"binarx", &a).err().unwrap(),
        "Update verification failed. Try again."
    );
}

#[test]
fn updated_version_drops_leading_v() {
    assert_eq!(updated_version("v1.2.3"), "1.2.3");
    assert_eq!(updated_version("vv1"), "1");
    assert_eq!(updated_version("1.0.0"), "1.0.0");
}

#[test]
fn only_the_installed_copy_updates_or_uninstalls() {
    let release = release_with(linux_asset(GOOD_URL, 10));
    assert_eq!(
        select_update_asset(false, &release, "linux", "x86_64", Some(RELEASES)).err().unwrap(),
        "Install FindOut before updating."
    );
    assert!(may_uninstall(true).is_ok());
    assert_eq!(
        may_uninstall(false).err().unwrap(),
        "Open the installed copy of FindOut to uninstall it."
    );
}

#[test]
fn installing_copies_only_when_needed() {
    assert_eq!(install_copy(true, true, false), Ok(false));
    assert_eq!(install_copy(false, false, false), Ok(true));
    assert_eq!(install_copy(false, true, true), Ok(false));
    assert_eq!(
        install_copy(false, true, false).err().unwrap(),
        "FindOut is already installed. Open it from your applications menu."
    );
}
