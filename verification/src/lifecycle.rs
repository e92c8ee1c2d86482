//! Per-user installation records, launcher files and verified release updates.
use vstd::prelude::*;

use sha2::{Digest, Sha256};

use crate::order::{sorted_unique_with, strictly_sorted};
use crate::text::{
    append_str, chars_of, contains_char, hex_lower, hex_string, push_char, starts_with,
    starts_with_str, str_equal, string_views, trim_start_char, trim_start_matches_char,
};

verus! {

broadcast use vstd::string::group_string_axioms;

// ---------------------------------------------------------------------------
// Installation record
// ---------------------------------------------------------------------------
/// What an installation remembers between runs (`install.json`).
pub struct InstallState {
    /// Backend origins whose credentials this installation stored.
    pub origins: Vec<String>,
    /// The version the last update installed.
    pub updated_version: String,
    /// When the last update was installed, in seconds since the Unix epoch.
    pub updated_at: u64,
}

/// How long after an update WHAT'S NEW is offered, in seconds.
pub const WHATS_NEW_SECONDS: u64 = 3600;

/// The origins `remember_origin` leaves: `origin` added unless already there.
pub open spec fn remembered(origins: Seq<Seq<char>>, origin: Seq<char>) -> Seq<Seq<char>> {
    if origins.contains(origin) {
        origins
    } else {
        origins.push(origin)
    }
}

/// Records that credentials for `origin` were stored, unless that is already
/// recorded. Returns whether the record changed and must be saved.
pub fn remember_origin(state: &mut InstallState, origin: &str) -> (changed: bool)
    ensures
        string_views(final(state).origins@) == remembered(string_views(old(state).origins@), origin@),
        changed == !string_views(old(state).origins@).contains(origin@),
        final(state).updated_version@ == old(state).updated_version@,
        final(state).updated_at == old(state).updated_at,
{
    let mut i: usize = 0;
    while i < state.origins.len()
        invariant
            i <= state.origins@.len(),
            forall|k: int| 0 <= k < i ==> state.origins@[k]@ != origin@,
        decreases state.origins@.len() - i,
    {
        if str_equal(state.origins[i].as_str(), origin) {
            assert(string_views(state.origins@)[i as int] == origin@);
            return false;
        }
        i = i + 1;
    }
    let ghost before = state.origins@;
    assert(!string_views(before).contains(origin@)) by {
        if string_views(before).contains(origin@) {
            let k = choose|k: int|
                0 <= k < string_views(before).len() && string_views(before)[k] == origin@;
            assert(before[k]@ == origin@);
        }
    }
    state.origins.push(origin.to_owned());
    assert(string_views(state.origins@) =~= string_views(before).push(origin@));
    true
}

/// Remembering an origin twice leaves the same record as remembering it once,
/// and a record without repeats keeps none.
pub proof fn remember_origin_is_idempotent(origins: Seq<Seq<char>>, origin: Seq<char>)
    ensures
        remembered(remembered(origins, origin), origin) == remembered(origins, origin),
        remembered(origins, origin).contains(origin),
        origins.no_duplicates() ==> remembered(origins, origin).no_duplicates(),
{
    if !origins.contains(origin) {
        assert(origins.push(origin)[origins.len() as int] == origin);
    }
}

/// Whether WHAT'S NEW is shown: the running version was installed by an update
/// less than an hour ago, and not in the future.
pub open spec fn whats_new_spec(
    updated_version: Seq<char>,
    updated_at: u64,
    current_version: Seq<char>,
    now: u64,
) -> bool {
    updated_version == current_version && now >= updated_at && now - updated_at
        < WHATS_NEW_SECONDS
}

/// Whether the release notes of this version are offered at `now`.
pub fn whats_new(state: &InstallState, current_version: &str, now: u64) -> (r: bool)
    ensures
        r == whats_new_spec(state.updated_version@, state.updated_at, current_version@, now),
{
    str_equal(state.updated_version.as_str(), current_version) && now >= state.updated_at && now
        - state.updated_at < WHATS_NEW_SECONDS
}

/// The origins whose credentials uninstalling removes: those recorded and the
/// one in use, sorted, each once.
pub fn origins_to_forget(state: &InstallState, origin: &str) -> (r: Vec<String>)
    ensures
        strictly_sorted(string_views(r@)),
        forall|x: Seq<char>|
            string_views(r@).contains(x) <==> (string_views(state.origins@).contains(x) || x
                == origin@),
{
    sorted_unique_with(&state.origins, origin)
}

/// Decides how installing proceeds: the running copy, unless it is already the
/// installed one, is copied into place (`Ok(true)`); an installed file that
/// differs from it is left alone and refused.
pub fn install_copy(installed: bool, target_exists: bool, same_binary: bool) -> (r: Result<
    bool,
    String,
>)
    ensures
        r is Err <==> (!installed && target_exists && !same_binary),
        r matches Ok(copy) ==> (copy <==> (!installed && !target_exists)),
        r matches Err(e) ==> e@ == "FindOut is already installed. Open it from your applications menu."@,
{
    if installed {
        return Ok(false);
    }
    if target_exists && !same_binary {
        return Err(
            String::from_str("FindOut is already installed. Open it from your applications menu."),
        );
    }
    Ok(!target_exists)
}

/// Only the installed copy can uninstall FindOut.
pub fn may_uninstall(installed: bool) -> (r: Result<(), String>)
    ensures
        r is Ok <==> installed,
        r matches Err(e) ==> e@ == "Open the installed copy of FindOut to uninstall it."@,
{
    if installed {
        Ok(())
    } else {
        Err(String::from_str("Open the installed copy of FindOut to uninstall it."))
    }
}

/// What a change of the autostart setting does to the startup launcher.
pub enum LauncherChange {
    /// Write the startup launcher.
    Write,
    /// Remove the startup launcher, if there is one.
    Remove,
}

/// Decides a change of the autostart setting. Only the installed copy may
/// change it; it then writes the startup launcher when `enabled` and removes it
/// otherwise.
pub fn set_autostart(installed: bool, enabled: bool) -> (r: Result<LauncherChange, String>)
    ensures
        r is Ok <==> installed,
        r matches Ok(change) ==> (change is Write <==> enabled),
        r matches Err(e) ==> e@ == "Install FindOut first"@,
{
    if !installed {
        return Err(String::from_str("Install FindOut first"));
    }
    if enabled {
        Ok(LauncherChange::Write)
    } else {
        Ok(LauncherChange::Remove)
    }
}

// ---------------------------------------------------------------------------
// Launcher files
// ---------------------------------------------------------------------------
/// Replaces every character of `s` by `f` of it.
pub open spec fn escape_each(s: Seq<char>, f: spec_fn(char) -> Seq<char>) -> Seq<char>
    decreases s.len(),
{
    if s.len() == 0 {
        Seq::empty()
    } else {
        escape_each(s.drop_last(), f) + f(s.last())
    }
}

/// XML character data for one character.
pub open spec fn xml_char(c: char) -> Seq<char> {
    if c == '&' {
        "&amp;"@
    } else if c == '<' {
        "&lt;"@
    } else if c == '>' {
        "&gt;"@
    } else if c == '"' {
        "&quot;"@
    } else if c == '\'' {
        "&apos;"@
    } else {
        seq![c]
    }
}

/// `value` as XML character data, safe inside elements and attributes.
pub fn xml_text(value: &str) -> (r: String)
    ensures
        r@ == escape_each(value@, |c: char| xml_char(c)),
{
    let cs = chars_of(value);
    let mut out = String::new();
    let mut i: usize = 0;
    while i < cs.len()
        invariant
            cs@ == value@,
            i <= cs@.len(),
            out@ == escape_each(value@.take(i as int), |c: char| xml_char(c)),
        decreases cs@.len() - i,
    {
        let c = cs[i];
        if c == '&' {
            append_str(&mut out, "&amp;");
        } else if c == '<' {
            append_str(&mut out, "&lt;");
        } else if c == '>' {
            append_str(&mut out, "&gt;");
        } else if c == '"' {
            append_str(&mut out, "&quot;");
        } else if c == '\'' {
            append_str(&mut out, "&apos;");
        } else {
            push_char(&mut out, c);
        }
        proof {
            assert(value@.take(i + 1).drop_last() =~= value@.take(i as int));
            assert(value@.take(i + 1).last() == c);
        }
        i = i + 1;
    }
    assert(value@.take(i as int) =~= value@);
    out
}

/// The macOS launch agent up to the program path.
pub const LAUNCH_AGENT_HEAD: &'static str = "<?xml version=\"1.0\" encoding=\"UTF-8\"?>
<!DOCTYPE plist PUBLIC \"-//Apple//DTD PLIST 1.0//EN\" \"http://www.apple.com/DTDs/PropertyList-1.0.dtd\">
<plist version=\"1.0\"><dict>
<key>Label</key><string>app.findout.client</string>
<key>ProgramArguments</key><array><string>";

/// The macOS launch agent after the program path.
pub const LAUNCH_AGENT_TAIL: &'static str = "</string></array>
<key>RunAtLoad</key><true/>
<key>LimitLoadToSessionType</key><string>Aqua</string>
</dict></plist>
";

/// The launch agent that starts `exe` at login, with the path as XML data.
pub fn launch_agent(exe: &str) -> (r: String)
    ensures
        r@ == LAUNCH_AGENT_HEAD@ + escape_each(exe@, |c: char| xml_char(c)) + LAUNCH_AGENT_TAIL@,
{
    let mut out = String::from_str(LAUNCH_AGENT_HEAD);
    let escaped = xml_text(exe);
    append_str(&mut out, escaped.as_str());
    append_str(&mut out, LAUNCH_AGENT_TAIL);
    out
}

/// One character of a desktop entry's quoted `Exec` value: the shell
/// characters `\`, `"`, `` ` `` and `$` escaped twice (for the string and the
/// key), and `%` doubled for the field-code syntax.
pub open spec fn desktop_char(c: char) -> Seq<char> {
    if c == '\\' {
        "\\\\\\\\"@
    } else if c == '"' {
        "\\\\\""@
    } else if c == '`' {
        "\\\\`"@
    } else if c == '$' {
        "\\\\$"@
    } else if c == '%' {
        "%%"@
    } else {
        seq![c]
    }
}

/// The Linux desktop entry up to the program path.
pub const DESKTOP_ENTRY_HEAD: &'static str = "[Desktop Entry]\nType=Application\nName=FindOut\nExec=\"";

/// The Linux desktop entry after the program path.
pub const DESKTOP_ENTRY_TAIL: &'static str = "\"\nTerminal=false\n";

/// What `desktop_entry` gives for `exe`.
pub open spec fn desktop_entry_spec(exe: Seq<char>) -> Result<Seq<char>, Seq<char>> {
    if exe.contains('\n') || exe.contains('\r') {
        Err("Installation path contains a newline"@)
    } else {
        Ok(DESKTOP_ENTRY_HEAD@ + escape_each(exe, |c: char| desktop_char(c)) + DESKTOP_ENTRY_TAIL@)
    }
}

/// The XDG desktop entry that starts `exe`; a path with a line break is refused.
pub fn desktop_entry(exe: &str) -> (r: Result<String, String>)
    ensures
        match r {
            Ok(s) => desktop_entry_spec(exe@) == Ok::<Seq<char>, Seq<char>>(s@),
            Err(e) => desktop_entry_spec(exe@) == Err::<Seq<char>, Seq<char>>(e@),
        },
{
    if contains_char(exe, '\n') || contains_char(exe, '\r') {
        return Err(String::from_str("Installation path contains a newline"));
    }
    let cs = chars_of(exe);
    let mut out = String::from_str(DESKTOP_ENTRY_HEAD);
    let mut i: usize = 0;
    while i < cs.len()
        invariant
            cs@ == exe@,
            i <= cs@.len(),
            out@ == DESKTOP_ENTRY_HEAD@ + escape_each(exe@.take(i as int), |c: char| desktop_char(c)),
        decreases cs@.len() - i,
    {
        let c = cs[i];
        if c == '\\' {
            append_str(&mut out, "\\\\\\\\");
        } else if c == '"' {
            append_str(&mut out, "\\\\\"");
        } else if c == '`' {
            append_str(&mut out, "\\\\`");
        } else if c == '$' {
            append_str(&mut out, "\\\\$");
        } else if c == '%' {
            append_str(&mut out, "%%");
        } else {
            push_char(&mut out, c);
        }
        proof {
            assert(exe@.take(i + 1).drop_last() =~= exe@.take(i as int));
            assert(exe@.take(i + 1).last() == c);
        }
        i = i + 1;
    }
    assert(exe@.take(i as int) =~= exe@);
    append_str(&mut out, DESKTOP_ENTRY_TAIL);
    Ok(out)
}

// ---------------------------------------------------------------------------
// Release updates
// ---------------------------------------------------------------------------
/// A downloadable file of a GitHub release.
pub struct Asset {
    pub name: String,
    pub browser_download_url: String,
    pub digest: Option<String>,
    pub size: u64,
}

/// The abstract content of an asset.
pub ghost struct AssetView {
    pub name: Seq<char>,
    pub browser_download_url: Seq<char>,
    pub digest: Option<Seq<char>>,
    pub size: u64,
}

pub open spec fn option_string_view(s: Option<String>) -> Option<Seq<char>> {
    match s {
        Some(x) => Some(x@),
        None => None,
    }
}

impl View for Asset {
    type V = AssetView;

    open spec fn view(&self) -> AssetView {
        AssetView {
            name: self.name@,
            browser_download_url: self.browser_download_url@,
            digest: option_string_view(self.digest),
            size: self.size,
        }
    }
}

impl Clone for Asset {
    fn clone(&self) -> (r: Self)
        ensures
            r@ == self@,
    {
        Asset {
            name: self.name.clone(),
            browser_download_url: self.browser_download_url.clone(),
            digest: match &self.digest {
                Some(d) => Some(d.clone()),
                None => None,
            },
            size: self.size,
        }
    }
}

/// The latest GitHub release, as far as updating reads it.
pub struct GitHubRelease {
    pub tag_name: String,
    pub assets: Vec<Asset>,
}

/// SHA-256 of `data`; nothing here states what it is beyond its length.
pub uninterp spec fn sha256(data: Seq<u8>) -> Seq<u8>;

/// Calls `sha2::Sha256::digest`. Trusted: the result is the SHA-256 hash of
/// `data`, written `sha256(data)`, and it is 32 bytes long.
#[verifier::external_body]
fn sha256_bytes(data: &[u8]) -> (r: Vec<u8>)
    ensures
        r@ == sha256(data@),
        r@.len() == 32,
{
    Sha256::digest(data).to_vec()
}

/// GitHub's notation of a SHA-256 digest: `sha256:` and 64 lower-case hex digits.
pub open spec fn digest_spec(bytes: Seq<u8>) -> Seq<char> {
    "sha256:"@ + hex_lower(sha256(bytes))
}

/// The digest of `bytes` as GitHub release metadata writes it.
pub fn digest(bytes: &[u8]) -> (r: String)
    ensures
        r@ == digest_spec(bytes@),
{
    let hash = sha256_bytes(bytes);
    let hex = hex_string(hash.as_slice());
    let mut out = String::from_str("sha256:");
    append_str(&mut out, hex.as_str());
    out
}

/// Whether downloaded `bytes` are the asset: its size and its digest match.
pub open spec fn verified(bytes: Seq<u8>, a: AssetView) -> bool {
    bytes.len() == a.size && a.digest == Some(digest_spec(bytes))
}

/// Checks downloaded bytes against the asset's size and SHA-256 digest; an
/// asset without a digest is refused.
pub fn verify(bytes: &[u8], a: &Asset) -> (r: Result<(), String>)
    ensures
        r is Ok <==> verified(bytes@, a@),
        r matches Err(e) ==> e@ == "Update verification failed. Try again."@,
{
    let d = digest(bytes);
    let matches = match &a.digest {
        Some(expected) => str_equal(expected.as_str(), d.as_str()),
        None => false,
    };
    if bytes.len() as u64 != a.size || !matches {
        return Err(String::from_str("Update verification failed. Try again."));
    }
    Ok(())
}

/// The updater executable for an operating system and architecture.
pub open spec fn asset_name_spec(os: Seq<char>, arch: Seq<char>) -> Option<Seq<char>> {
    if os == "linux"@ && arch == "x86_64"@ {
        Some("findout-client-linux-x86_64"@)
    } else if os == "windows"@ && arch == "x86_64"@ {
        Some("findout-client-windows-x86_64.exe"@)
    } else if os == "macos"@ && arch == "aarch64"@ {
        Some("findout-client-macos-aarch64"@)
    } else if os == "macos"@ && arch == "x86_64"@ {
        Some("findout-client-macos-x86_64"@)
    } else {
        None
    }
}

/// The name of the release asset that updates this platform, if any.
pub fn update_asset_name(os: &str, arch: &str) -> (r: Option<&'static str>)
    ensures
        match r {
            Some(n) => asset_name_spec(os@, arch@) == Some(n@),
            None => asset_name_spec(os@, arch@) is None,
        },
{
    if str_equal(os, "linux") && str_equal(arch, "x86_64") {
        Some("findout-client-linux-x86_64")
    } else if str_equal(os, "windows") && str_equal(arch, "x86_64") {
        Some("findout-client-windows-x86_64.exe")
    } else if str_equal(os, "macos") && str_equal(arch, "aarch64") {
        Some("findout-client-macos-aarch64")
    } else if str_equal(os, "macos") && str_equal(arch, "x86_64") {
        Some("findout-client-macos-x86_64")
    } else {
        None
    }
}

/// The largest update that is downloaded, in bytes.
pub const MAX_UPDATE_BYTES: u64 = 104857600;

pub open spec fn asset_views(s: Seq<Asset>) -> Seq<AssetView> {
    s.map_values(|a: Asset| a@)
}

/// The first asset named `name`.
pub open spec fn find_asset(assets: Seq<AssetView>, name: Seq<char>) -> Option<AssetView>
    decreases assets.len(),
{
    if assets.len() == 0 {
        None
    } else if assets[0].name == name {
        Some(assets[0])
    } else {
        find_asset(assets.drop_first(), name)
    }
}

/// Where a release's assets must be downloaded from.
pub open spec fn download_prefix(releases: Seq<char>, tag: Seq<char>) -> Seq<char> {
    releases + "/download/"@ + tag + "/"@
}

/// What `select_update_asset` gives.
pub open spec fn update_asset_spec(
    installed: bool,
    tag: Seq<char>,
    assets: Seq<AssetView>,
    os: Seq<char>,
    arch: Seq<char>,
    releases: Option<Seq<char>>,
) -> Result<AssetView, Seq<char>> {
    if !installed {
        Err("Install FindOut before updating."@)
    } else {
        match asset_name_spec(os, arch) {
            None => Err("No update is available for this platform or architecture"@),
            Some(name) => match find_asset(assets, name) {
                None => Err(
                    "This release has no automatic update asset. Please download it from GitHub."@,
                ),
                Some(a) => match releases {
                    None => Err("Missing release repository"@),
                    Some(r) => if !starts_with(a.browser_download_url, download_prefix(r, tag)) {
                        Err("Invalid update URL"@)
                    } else if a.size == 0 || a.size > MAX_UPDATE_BYTES {
                        Err("Invalid update size"@)
                    } else {
                        Ok(a)
                    },
                },
            },
        }
    }
}

/// Picks the asset that updates this platform and checks where it comes from
/// and how large it claims to be; only the installed copy updates itself.
pub fn select_update_asset(
    installed: bool,
    release: &GitHubRelease,
    os: &str,
    arch: &str,
    releases: Option<&str>,
) -> (r: Result<Asset, String>)
    ensures
        match r {
            Ok(a) => update_asset_spec(
                installed,
                release.tag_name@,
                asset_views(release.assets@),
                os@,
                arch@,
                match releases {
                    Some(s) => Some(s@),
                    None => None,
                },
            ) == Ok::<AssetView, Seq<char>>(a@),
            Err(e) => update_asset_spec(
                installed,
                release.tag_name@,
                asset_views(release.assets@),
                os@,
                arch@,
                match releases {
                    Some(s) => Some(s@),
                    None => None,
                },
            ) == Err::<AssetView, Seq<char>>(e@),
        },
{
    if !installed {
        return Err(String::from_str("Install FindOut before updating."));
    }
    let name = match update_asset_name(os, arch) {
        Some(n) => n,
        None => {
            return Err(String::from_str("No update is available for this platform or architecture"));
        },
    };
    let ghost views = asset_views(release.assets@);
    let mut i: usize = 0;
    assert(views.skip(0) =~= views);
    while i < release.assets.len() && !str_equal(release.assets[i].name.as_str(), name)
        invariant
            i <= release.assets@.len(),
            views == asset_views(release.assets@),
            find_asset(views, name@) == find_asset(views.skip(i as int), name@),
        decreases release.assets@.len() - i,
    {
        assert(views.skip(i as int).drop_first() =~= views.skip(i + 1));
        i = i + 1;
    }
    if i == release.assets.len() {
        assert(views.skip(i as int).len() == 0);
        return Err(
            String::from_str(
                "This release has no automatic update asset. Please download it from GitHub.",
            ),
        );
    }
    let a = &release.assets[i];
    assert(views.skip(i as int)[0] == a@);
    let releases = match releases {
        Some(r) => r,
        None => {
            return Err(String::from_str("Missing release repository"));
        },
    };
    let mut prefix = String::from_str(releases);
    append_str(&mut prefix, "/download/");
    append_str(&mut prefix, release.tag_name.as_str());
    append_str(&mut prefix, "/");
    if !starts_with_str(a.browser_download_url.as_str(), prefix.as_str()) {
        return Err(String::from_str("Invalid update URL"));
    }
    if a.size == 0 || a.size > MAX_UPDATE_BYTES {
        return Err(String::from_str("Invalid update size"));
    }
    Ok(a.clone())
}

/// Checks where a download ended up before its body is read: only HTTPS is
/// accepted.
pub fn require_https(final_url: &str) -> (r: Result<(), String>)
    ensures
        r is Ok <==> starts_with(final_url@, "https://"@),
        r matches Err(e) ==> e@ == "Update requires HTTPS"@,
{
    if !starts_with_str(final_url, "https://") {
        return Err(String::from_str("Update requires HTTPS"));
    }
    Ok(())
}

/// Checks a finished download: it came over HTTPS and is the asset.
pub fn verify_download(final_url: &str, bytes: &[u8], a: &Asset) -> (r: Result<(), String>)
    ensures
        r is Ok <==> (starts_with(final_url@, "https://"@) && verified(bytes@, a@)),
        r matches Err(e) ==> (if !starts_with(final_url@, "https://"@) {
            e@ == "Update requires HTTPS"@
        } else {
            e@ == "Update verification failed. Try again."@
        }),
{
    if let Err(e) = require_https(final_url) {
        return Err(e);
    }
    verify(bytes, a)
}

/// The version an update to `tag` installs: the tag without leading `v`s.
pub fn updated_version(tag: &str) -> (r: String)
    ensures
        r@ == trim_start_char(tag@, 'v'),
{
    trim_start_matches_char(tag, 'v').to_owned()
}

} // verus!
