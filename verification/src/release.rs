//! Release versions and the GitHub addresses of this build's repository.
use vstd::prelude::*;

use crate::text::{
    append_str, lemma_split_on_two, is_ascii_alphanumeric, parse_u64, parse_u64_spec, split_on, split_str,
    string_views,
};

verus! {

broadcast use vstd::string::group_string_axioms;

/// `value` without one leading `v`.
pub open spec fn strip_v(value: Seq<char>) -> Seq<char> {
    if value.len() > 0 && value[0] == 'v' {
        value.drop_first()
    } else {
        value
    }
}

/// The three numbers of a `vMAJOR.MINOR.PATCH` or `MAJOR.MINOR.PATCH` version.
pub open spec fn version_spec(value: Seq<char>) -> Option<(u64, u64, u64)> {
    let parts = split_on(strip_v(value), '.');
    if parts.len() == 3 && parse_u64_spec(parts[0]) is Some && parse_u64_spec(parts[1]) is Some
        && parse_u64_spec(parts[2]) is Some {
        Some(
            (
                parse_u64_spec(parts[0])->Some_0,
                parse_u64_spec(parts[1])->Some_0,
                parse_u64_spec(parts[2])->Some_0,
            ),
        )
    } else {
        None
    }
}

/// Parses a release version of exactly three numbers.
pub fn version_parts(value: &str) -> (r: Option<[u64; 3]>)
    ensures
        match r {
            Some(v) => version_spec(value@) == Some((v[0], v[1], v[2])),
            None => version_spec(value@) is None,
        },
{
    let cs = crate::text::chars_of(value);
    let rest: &str = if cs.len() > 0 && cs[0] == 'v' {
        value.substring_char(1, cs.len())
    } else {
        value
    };
    assert(rest@ == strip_v(value@)) by {
        if value@.len() > 0 && value@[0] == 'v' {
            assert(value@.subrange(1, value@.len() as int) =~= value@.drop_first());
        }
    }
    let parts = split_str(rest, '.');
    assert(string_views(parts@) == split_on(rest@, '.'));
    if parts.len() != 3 {
        return None;
    }
    assert(parts@[0]@ == split_on(rest@, '.')[0]);
    assert(parts@[1]@ == split_on(rest@, '.')[1]);
    assert(parts@[2]@ == split_on(rest@, '.')[2]);
    let a = match parse_u64(parts[0].as_str()) {
        Some(a) => a,
        None => {
            return None;
        },
    };
    let b = match parse_u64(parts[1].as_str()) {
        Some(b) => b,
        None => {
            return None;
        },
    };
    let c = match parse_u64(parts[2].as_str()) {
        Some(c) => c,
        None => {
            return None;
        },
    };
    Some([a, b, c])
}

/// `a` is a later version than `b`, comparing the numbers in order.
pub open spec fn version_later(a: (u64, u64, u64), b: (u64, u64, u64)) -> bool {
    ||| a.0 > b.0
    ||| a.0 == b.0 && a.1 > b.1
    ||| a.0 == b.0 && a.1 == b.1 && a.2 > b.2
}

/// Whether `latest` names a later release than `current`; anything that is
/// not a three-number version is never newer.
pub open spec fn is_newer_spec(latest: Seq<char>, current: Seq<char>) -> bool {
    match (version_spec(latest), version_spec(current)) {
        (Some(l), Some(c)) => version_later(l, c),
        _ => false,
    }
}

/// Whether `latest` names a later release than `current`.
pub fn is_newer_version(latest: &str, current: &str) -> (r: bool)
    ensures
        r == is_newer_spec(latest@, current@),
{
    match (version_parts(latest), version_parts(current)) {
        (Some(l), Some(c)) => l[0] > c[0] || (l[0] == c[0] && l[1] > c[1]) || (l[0] == c[0]
            && l[1] == c[1] && l[2] > c[2]),
        _ => false,
    }
}

/// No version is newer than itself, and of two versions at most one is newer.
pub proof fn newer_is_a_strict_order(a: Seq<char>, b: Seq<char>, c: Seq<char>)
    ensures
        !is_newer_spec(a, a),
        is_newer_spec(a, b) ==> !is_newer_spec(b, a),
        is_newer_spec(a, b) && is_newer_spec(b, c) ==> is_newer_spec(a, c),
{
}

/// A GitHub owner or repository name: non-empty ASCII letters, digits, `-`,
/// `_` and `.`.
pub open spec fn valid_segment(s: Seq<char>) -> bool {
    &&& s.len() > 0
    &&& forall|i: int|
        0 <= i < s.len() ==> (is_ascii_alphanumeric(#[trigger] s[i]) || s[i] == '-' || s[i]
            == '_' || s[i] == '.')
}

fn is_valid_segment(s: &str) -> (r: bool)
    ensures
        r == valid_segment(s@),
{
    let cs = crate::text::chars_of(s);
    if cs.len() == 0 {
        return false;
    }
    let mut i: usize = 0;
    while i < cs.len()
        invariant
            cs@ == s@,
            i <= cs@.len(),
            forall|k: int|
                0 <= k < i ==> (is_ascii_alphanumeric(#[trigger] s@[k]) || s@[k] == '-' || s@[k]
                    == '_' || s@[k] == '.'),
        decreases cs@.len() - i,
    {
        let c = cs[i];
        let ok = ('0' <= c && c <= '9') || ('a' <= c && c <= 'z') || ('A' <= c && c <= 'Z') || c
            == '-' || c == '_' || c == '.';
        if !ok {
            assert(s@[i as int] == c);
            return false;
        }
        i = i + 1;
    }
    true
}

/// The latest-release API address and the releases page of `OWNER/REPO`.
pub open spec fn release_urls_spec(repository: Option<Seq<char>>) -> Option<
    (Seq<char>, Seq<char>),
> {
    match repository {
        None => None,
        Some(r) => {
            let parts = split_on(r, '/');
            if parts.len() == 2 && valid_segment(parts[0]) && valid_segment(parts[1]) {
                Some(
                    (
                        "https://api.github.com/repos/"@ + r + "/releases/latest"@,
                        "https://github.com/"@ + r + "/releases"@,
                    ),
                )
            } else {
                None
            }
        },
    }
}

/// The addresses of the repository this build was made from, if it names a
/// valid `OWNER/REPO`.
pub fn github_release_urls(repository: Option<&str>) -> (r: Option<(String, String)>)
    ensures
        match r {
            Some((api, page)) => release_urls_spec(
                match repository {
                    Some(s) => Some(s@),
                    None => None,
                },
            ) == Some((api@, page@)),
            None => release_urls_spec(
                match repository {
                    Some(s) => Some(s@),
                    None => None,
                },
            ) is None,
        },
{
    let repository = match repository {
        Some(r) => r,
        None => {
            return None;
        },
    };
    let parts = split_str(repository, '/');
    assert(string_views(parts@) == split_on(repository@, '/'));
    if parts.len() != 2 {
        return None;
    }
    assert(parts@[0]@ == split_on(repository@, '/')[0]);
    assert(parts@[1]@ == split_on(repository@, '/')[1]);
    if !is_valid_segment(parts[0].as_str()) || !is_valid_segment(parts[1].as_str()) {
        return None;
    }
    let mut api = String::from_str("https://api.github.com/repos/");
    append_str(&mut api, repository);
    append_str(&mut api, "/releases/latest");
    let mut page = String::from_str("https://github.com/");
    append_str(&mut page, repository);
    append_str(&mut page, "/releases");
    Some((api, page))
}

/// The page the WHAT'S NEW and UPDATE links open: the release notes of this
/// version right after an update, otherwise the releases page.
pub open spec fn releases_page_spec(releases: Seq<char>, whats_new: bool, version: Seq<char>) -> Seq<
    char,
> {
    if whats_new {
        releases + "/tag/v"@ + version
    } else {
        releases
    }
}

/// The page to open from the update link.
pub fn releases_page(releases: &str, whats_new: bool, version: &str) -> (r: String)
    ensures
        r@ == releases_page_spec(releases@, whats_new, version@),
{
    let mut out = String::from_str(releases);
    if whats_new {
        append_str(&mut out, "/tag/v");
        append_str(&mut out, version);
    }
    out
}

/// Every `OWNER/REPO` whose two parts are non-empty and made only of ASCII
/// letters of either case, digits, `-`, `_` and `.` gets both release
/// addresses, built from the repository as written.
pub proof fn release_urls_of_a_repository(owner: Seq<char>, repo: Seq<char>)
    requires
        owner.len() > 0,
        repo.len() > 0,
        forall|i: int|
            0 <= i < owner.len() ==> ({
                let c = #[trigger] owner[i];
                ('0' <= c && c <= '9') || ('a' <= c && c <= 'z') || ('A' <= c && c <= 'Z') || c
                    == '-' || c == '_' || c == '.'
            }),
        forall|i: int|
            0 <= i < repo.len() ==> ({
                let c = #[trigger] repo[i];
                ('0' <= c && c <= '9') || ('a' <= c && c <= 'z') || ('A' <= c && c <= 'Z') || c
                    == '-' || c == '_' || c == '.'
            }),
    ensures
        release_urls_spec(Some(owner + "/"@ + repo)) == Some(
            (
                "https://api.github.com/repos/"@ + owner + "/"@ + repo + "/releases/latest"@,
                "https://github.com/"@ + owner + "/"@ + repo + "/releases"@,
            ),
        ),
{
    reveal_strlit("/");
    assert(!owner.contains('/')) by {
        if owner.contains('/') {
            let k = choose|k: int| 0 <= k < owner.len() && owner[k] == '/';
            assert(owner[k] == '/');
        }
    }
    assert(!repo.contains('/')) by {
        if repo.contains('/') {
            let k = choose|k: int| 0 <= k < repo.len() && repo[k] == '/';
            assert(repo[k] == '/');
        }
    }
    assert("/"@ =~= seq!['/']);
    lemma_split_on_two(owner, repo, '/');
    let parts = split_on(owner + "/"@ + repo, '/');
    assert(parts[0] == owner && parts[1] == repo);
    assert(valid_segment(owner));
    assert(valid_segment(repo));
}

} // verus!
