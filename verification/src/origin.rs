//! The backend origin this client talks to.
use vstd::prelude::*;

use crate::text::{starts_with, str_equal, trim_end_char, trim_end_matches_char};

verus! {

broadcast use vstd::string::group_string_axioms;

/// The origin a development build uses when none is configured.
pub const DEVELOPMENT_ORIGIN: &'static str = "http://127.0.0.1:8787";

/// What the `url` crate reads from an address: its scheme, its host, and
/// whether it has a query and a fragment; nothing if it does not parse.
pub uninterp spec fn url_parts(s: Seq<char>) -> Option<(Seq<char>, Option<Seq<char>>, bool, bool)>;

/// The parts of a parsed address that the origin check reads.
pub struct UrlParts {
    pub scheme: String,
    pub host: Option<String>,
    pub has_query: bool,
    pub has_fragment: bool,
}

/// Calls `url::Url::parse` and reads `scheme`, `host_str`, `query` and
/// `fragment` of the result. Trusted: they are `url_parts(s)`.
#[verifier::external_body]
fn parse_url(s: &str) -> (r: Option<UrlParts>)
    ensures
        match r {
            Some(p) => url_parts(s@) == Some(
                (
                    p.scheme@,
                    match p.host {
                        Some(h) => Some(h@),
                        None => None,
                    },
                    p.has_query,
                    p.has_fragment,
                ),
            ),
            None => url_parts(s@) is None,
        },
{
    match url::Url::parse(s) {
        Ok(u) => Some(
            UrlParts {
                scheme: u.scheme().to_owned(),
                host: u.host_str().map(|h| h.to_owned()),
                has_query: u.query().is_some(),
                has_fragment: u.fragment().is_some(),
            },
        ),
        Err(_) => None,
    }
}

pub open spec fn ends_with(s: Seq<char>, suffix: Seq<char>) -> bool {
    suffix.len() <= s.len() && s.skip(s.len() - suffix.len()) == suffix
}

/// A host that names this machine.
pub open spec fn loopback_host(host: Seq<char>) -> bool {
    ||| host == "localhost"@
    ||| host == "127.0.0.1"@
    ||| host == "::1"@
    ||| ends_with(host, ".localhost"@)
}

fn ends_with_str(s: &str, suffix: &str) -> (r: bool)
    ensures
        r == ends_with(s@, suffix@),
{
    let n = s.unicode_len();
    let m = suffix.unicode_len();
    if m > n {
        return false;
    }
    let tail = s.substring_char(n - m, n);
    assert(tail@ =~= s@.skip(n - m));
    str_equal(tail, suffix)
}

/// The configured origin: the run-time setting, else the one built in, else
/// in a development build the local server.
pub open spec fn chosen_origin(runtime: Option<Seq<char>>, built_in: Option<Seq<char>>, development: bool) -> Option<
    Seq<char>,
> {
    match runtime {
        Some(v) => Some(v),
        None => match built_in {
            Some(v) => Some(v),
            None => if development {
                Some(DEVELOPMENT_ORIGIN@)
            } else {
                None
            },
        },
    }
}

/// What `api_origin` gives.
pub open spec fn api_origin_spec(runtime: Option<Seq<char>>, built_in: Option<Seq<char>>, development: bool) -> Result<
    Seq<char>,
    Seq<char>,
> {
    match chosen_origin(runtime, built_in, development) {
        None => Err("FINDOUT_API_ORIGIN must be set when building a release"@),
        Some(value) => match url_parts(value) {
            None => Err("FINDOUT_API_ORIGIN is not a valid URL"@),
            Some((scheme, host, has_query, has_fragment)) => match host {
                None => Err("FINDOUT_API_ORIGIN must include a host"@),
                Some(h) => if has_query || has_fragment {
                    Err("FINDOUT_API_ORIGIN cannot contain a query or fragment"@)
                } else if !development && scheme != "https"@ && !loopback_host(h) {
                    Err("FINDOUT_API_ORIGIN must use HTTPS in release builds"@)
                } else {
                    Ok(trim_end_char(value, '/'))
                },
            },
        },
    }
}

/// The backend origin, without trailing `/`. Release builds must use HTTPS
/// unless the host is this machine; a query or fragment is refused.
pub fn api_origin(runtime: Option<String>, built_in: Option<&str>, development: bool) -> (r:
    Result<String, String>)
    ensures
        match r {
            Ok(o) => api_origin_spec(
                match runtime {
                    Some(v) => Some(v@),
                    None => None,
                },
                match built_in {
                    Some(v) => Some(v@),
                    None => None,
                },
                development,
            ) == Ok::<Seq<char>, Seq<char>>(o@),
            Err(e) => api_origin_spec(
                match runtime {
                    Some(v) => Some(v@),
                    None => None,
                },
                match built_in {
                    Some(v) => Some(v@),
                    None => None,
                },
                development,
            ) == Err::<Seq<char>, Seq<char>>(e@),
        },
{
    let value: String = match runtime {
        Some(v) => v,
        None => match built_in {
            Some(v) => v.to_owned(),
            None => if development {
                String::from_str(DEVELOPMENT_ORIGIN)
            } else {
                return Err(String::from_str("FINDOUT_API_ORIGIN must be set when building a release"));
            },
        },
    };
    let parts = match parse_url(value.as_str()) {
        Some(p) => p,
        None => {
            return Err(String::from_str("FINDOUT_API_ORIGIN is not a valid URL"));
        },
    };
    let host = match &parts.host {
        Some(h) => h,
        None => {
            return Err(String::from_str("FINDOUT_API_ORIGIN must include a host"));
        },
    };
    if parts.has_query || parts.has_fragment {
        return Err(String::from_str("FINDOUT_API_ORIGIN cannot contain a query or fragment"));
    }
    let h = host.as_str();
    let loopback = str_equal(h, "localhost") || str_equal(h, "127.0.0.1") || str_equal(h, "::1")
        || ends_with_str(h, ".localhost");
    if !development && !str_equal(parts.scheme.as_str(), "https") && !loopback {
        return Err(String::from_str("FINDOUT_API_ORIGIN must use HTTPS in release builds"));
    }
    Ok(trim_end_matches_char(value.as_str(), '/').to_owned())
}

/// The run-time setting wins: when one is given, it is the origin checked
/// and, without trailing `/`, returned, whatever origin is built in. Without
/// one the built-in origin is used, and without either a development build
/// uses the local server while a release build is refused.
pub proof fn runtime_origin_overrides_built_in(
    runtime: Option<Seq<char>>,
    built_in: Option<Seq<char>>,
    other_built_in: Option<Seq<char>>,
    development: bool,
)
    ensures
        runtime is Some ==> api_origin_spec(runtime, built_in, development) == api_origin_spec(
            runtime,
            other_built_in,
            development,
        ),
        runtime matches Some(v) ==> (api_origin_spec(runtime, built_in, development) matches Ok(
            o,
        ) ==> o == trim_end_char(v, '/')),
        runtime is None && built_in is Some ==> (api_origin_spec(
            runtime,
            built_in,
            development,
        ) matches Ok(o) ==> o == trim_end_char(built_in->Some_0, '/')),
        runtime is None && built_in is None && development ==> (api_origin_spec(
            runtime,
            built_in,
            development,
        ) matches Ok(o) ==> o == trim_end_char(DEVELOPMENT_ORIGIN@, '/')),
        runtime is None && built_in is None && !development ==> api_origin_spec(
            runtime,
            built_in,
            development,
        ) == Err::<Seq<char>, Seq<char>>("FINDOUT_API_ORIGIN must be set when building a release"@),
{
}

} // verus!
