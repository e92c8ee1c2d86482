//! Server quota headers, error bodies and the status lines shown for them.
use vstd::prelude::*;

use chrono::{DateTime, Datelike, Timelike};

use crate::text::{
    append_str, decimal, decimal_string, parse_u64, parse_u64_spec, push_char, str_equal, take_chars,
    take_chars_of,
};

verus! {

broadcast use vstd::string::group_string_axioms;

/// The trial allowance the server reports with a response.
pub struct QuotaMetadata {
    pub limit: u64,
    pub remaining: u64,
    /// When the allowance resets, as an RFC 3339 UTC time.
    pub reset: String,
}

/// What the client reads from response headers.
pub struct ResponseMetadata {
    pub quota: Option<QuotaMetadata>,
    /// Seconds to wait before retrying, when the server says.
    pub retry_after: Option<u64>,
}

/// Why a request to the server failed.
pub enum RequestError {
    /// The server answered with this status, message and metadata.
    Http(u16, String, ResponseMetadata),
    /// The server could not be reached.
    Transport,
    /// The server's answer could not be read.
    InvalidResponse,
}

/// The local date and time and the UTC offset of an RFC 3339 time stamp.
pub struct Rfc3339Local {
    pub offset_seconds: i32,
    pub year: i32,
    pub month: u32,
    pub day: u32,
    pub hour: u32,
    pub minute: u32,
}

/// What `chrono` parses from an RFC 3339 time stamp: (UTC offset in seconds,
/// year, month, day, hour, minute) as written, or nothing if it is not one.
pub uninterp spec fn rfc3339_local(s: Seq<char>) -> Option<(int, int, int, int, int, int)>;

/// Calls `chrono::DateTime::parse_from_rfc3339` and reads the offset and the
/// local date and time of the result. Trusted: the fields are
/// `rfc3339_local(s)`; the grammar chrono parses has a four-digit year, a
/// valid month and day, an hour up to 23 and a minute up to 59.
#[verifier::external_body]
fn parse_rfc3339(s: &str) -> (r: Option<Rfc3339Local>)
    ensures
        match r {
            Some(f) => rfc3339_local(s@) == Some(
                (
                    f.offset_seconds as int,
                    f.year as int,
                    f.month as int,
                    f.day as int,
                    f.hour as int,
                    f.minute as int,
                ),
            ),
            None => rfc3339_local(s@) is None,
        },
        r matches Some(f) ==> 0 <= f.year <= 9999 && 1 <= f.month <= 12 && 1 <= f.day <= 31
            && f.hour <= 23 && f.minute <= 59,
{
    match DateTime::parse_from_rfc3339(s) {
        Ok(t) => {
            let l = t.naive_local();
            Some(Rfc3339Local {
                offset_seconds: t.offset().local_minus_utc(), year: l.year(), month: l.month(),
                day: l.day(), hour: l.hour(), minute: l.minute(),
            })
        },
        Err(_) => None,
    }
}

/// `n` in decimal, with leading zeros up to `width` digits.
pub open spec fn zero_padded(n: nat, width: nat) -> Seq<char> {
    let d = decimal(n);
    if d.len() < width {
        Seq::new((width - d.len()) as nat, |i: int| '0') + d
    } else {
        d
    }
}

/// The reset time as the status line shows it (`%Y-%m-%d %H:%M UTC`), or the
/// header value itself when it is no RFC 3339 time.
pub open spec fn reset_label(reset: Seq<char>) -> Seq<char> {
    match rfc3339_local(reset) {
        Some((_, y, mo, d, h, mi)) => zero_padded(y as nat, 4) + "-"@ + zero_padded(mo as nat, 2)
            + "-"@ + zero_padded(d as nat, 2) + " "@ + zero_padded(h as nat, 2) + ":"@
            + zero_padded(mi as nat, 2) + " UTC"@,
        None => reset,
    }
}

/// `format!("{n:0width$}")`.
fn zero_padded_string(n: u64, width: usize) -> (r: String)
    ensures
        r@ == zero_padded(n as nat, width as nat),
{
    let digits = decimal_string(n);
    let len = digits.as_str().unicode_len();
    let mut out = String::new();
    let mut k: usize = len;
    while k < width
        invariant
            len <= k <= width || (k == len && len >= width),
            len == decimal(n as nat).len(),
            out@ == Seq::new((k - len) as nat, |i: int| '0'),
        decreases width - k,
    {
        push_char(&mut out, '0');
        k = k + 1;
        assert(out@ =~= Seq::new((k - len) as nat, |i: int| '0'));
    }
    append_str(&mut out, digits.as_str());
    if len >= width {
        assert(out@ =~= decimal(n as nat));
    }
    out
}

/// The reset time of a quota as the status line shows it.
pub fn quota_reset(reset: &str) -> (r: String)
    ensures
        r@ == reset_label(reset@),
{
    match parse_rfc3339(reset) {
        Some(f) => {
            let mut out = zero_padded_string(f.year as u64, 4);
            append_str(&mut out, "-");
            append_str(&mut out, zero_padded_string(f.month as u64, 2).as_str());
            append_str(&mut out, "-");
            append_str(&mut out, zero_padded_string(f.day as u64, 2).as_str());
            append_str(&mut out, " ");
            append_str(&mut out, zero_padded_string(f.hour as u64, 2).as_str());
            append_str(&mut out, ":");
            append_str(&mut out, zero_padded_string(f.minute as u64, 2).as_str());
            append_str(&mut out, " UTC");
            out
        },
        None => reset.to_owned(),
    }
}

/// The quota the three headers describe, when all are valid: two unsigned
/// integers and an RFC 3339 time in UTC.
pub open spec fn quota_spec(limit: Seq<char>, remaining: Seq<char>, reset: Seq<char>) -> Option<
    (u64, u64),
> {
    match (rfc3339_local(reset), parse_u64_spec(limit), parse_u64_spec(remaining)) {
        (Some(t), Some(l), Some(r)) => if t.0 == 0 {
            Some((l, r))
        } else {
            None
        },
        _ => None,
    }
}

/// Reads the quota headers; anything incomplete or invalid gives no quota.
pub fn parse_quota_metadata(limit: &str, remaining: &str, reset: &str) -> (r: Option<
    QuotaMetadata,
>)
    ensures
        match r {
            Some(q) => quota_spec(limit@, remaining@, reset@) == Some((q.limit, q.remaining))
                && q.reset@ == reset@,
            None => quota_spec(limit@, remaining@, reset@) is None,
        },
{
    let t = match parse_rfc3339(reset) {
        Some(t) => t,
        None => {
            return None;
        },
    };
    if t.offset_seconds != 0 {
        return None;
    }
    let l = match parse_u64(limit) {
        Some(l) => l,
        None => {
            return None;
        },
    };
    let r = match parse_u64(remaining) {
        Some(r) => r,
        None => {
            return None;
        },
    };
    Some(QuotaMetadata { limit: l, remaining: r, reset: reset.to_owned() })
}

/// A positive number of seconds from a `Retry-After` header.
pub open spec fn retry_after_spec(value: Option<Seq<char>>) -> Option<u64> {
    match value {
        Some(v) => match parse_u64_spec(v) {
            Some(n) => if n > 0 {
                Some(n)
            } else {
                None
            },
            None => None,
        },
        None => None,
    }
}

pub open spec fn option_str_view(s: Option<&str>) -> Option<Seq<char>> {
    match s {
        Some(x) => Some(x@),
        None => None,
    }
}

/// The metadata of a response, from its quota headers and `Retry-After`.
pub fn response_metadata(
    limit: Option<&str>,
    remaining: Option<&str>,
    reset: Option<&str>,
    retry_after: Option<&str>,
) -> (r: ResponseMetadata)
    ensures
        r.retry_after == retry_after_spec(option_str_view(retry_after)),
        match (limit, remaining, reset) {
            (Some(l), Some(m), Some(t)) => match r.quota {
                Some(q) => quota_spec(l@, m@, t@) == Some((q.limit, q.remaining)) && q.reset@
                    == t@,
                None => quota_spec(l@, m@, t@) is None,
            },
            _ => r.quota is None,
        },
{
    let quota = match (limit, remaining, reset) {
        (Some(l), Some(m), Some(t)) => parse_quota_metadata(l, m, t),
        _ => None,
    };
    let retry = match retry_after {
        Some(v) => match parse_u64(v) {
            Some(n) => if n > 0 {
                Some(n)
            } else {
                None
            },
            None => None,
        },
        None => None,
    };
    ResponseMetadata { quota, retry_after: retry }
}

/// "`remaining`/`limit` left · reset `time`".
pub open spec fn quota_status_spec(limit: u64, remaining: u64, reset: Seq<char>) -> Seq<char> {
    decimal(remaining as nat) + "/"@ + decimal(limit as nat) + " left · reset "@ + reset_label(
        reset,
    )
}

/// The status line for a trial quota.
pub fn quota_status(quota: &QuotaMetadata) -> (r: String)
    ensures
        r@ == quota_status_spec(quota.limit, quota.remaining, quota.reset@),
{
    let mut out = decimal_string(quota.remaining);
    append_str(&mut out, "/");
    append_str(&mut out, decimal_string(quota.limit).as_str());
    append_str(&mut out, " left · reset ");
    append_str(&mut out, quota_reset(quota.reset.as_str()).as_str());
    out
}

/// The message shown for a failed request.
pub open spec fn request_message_spec(error: RequestError) -> Seq<char> {
    match error {
        RequestError::Http(_, message, _) => message@,
        RequestError::Transport => "Cannot reach the FindOut server"@,
        RequestError::InvalidResponse => "Invalid response from the FindOut server"@,
    }
}

/// The message shown for a failed request.
pub fn request_message(error: RequestError) -> (r: String)
    ensures
        r@ == request_message_spec(error),
{
    match error {
        RequestError::Http(_, message, _) => message,
        RequestError::Transport => String::from_str("Cannot reach the FindOut server"),
        RequestError::InvalidResponse => String::from_str(
            "Invalid response from the FindOut server",
        ),
    }
}

/// A message with the server's retry hint, if it gave one.
pub open spec fn with_retry_hint(message: Seq<char>, retry_after: Option<u64>) -> Seq<char> {
    match retry_after {
        Some(s) => message + " · retry in "@ + decimal(s as nat) + "s"@,
        None => message,
    }
}

fn retry_hint(message: String, retry_after: Option<u64>) -> (r: String)
    ensures
        r@ == with_retry_hint(message@, retry_after),
{
    match retry_after {
        Some(seconds) => {
            let mut out = message;
            append_str(&mut out, " · retry in ");
            append_str(&mut out, decimal_string(seconds).as_str());
            append_str(&mut out, "s");
            out
        },
        None => message,
    }
}

/// What `retryable_error` shows.
pub open spec fn retryable_error_spec(error: RequestError) -> Seq<char> {
    match error {
        RequestError::Http(status, message, metadata) => if status == 429 {
            with_retry_hint(message@, metadata.retry_after)
        } else {
            message@
        },
        _ => request_message_spec(error),
    }
}

/// The message for a failed request; a rate limit adds the server's retry hint.
pub fn retryable_error(error: RequestError) -> (r: String)
    ensures
        r@ == retryable_error_spec(error),
{
    match error {
        RequestError::Http(status, message, metadata) => if status == 429 {
            retry_hint(message, metadata.retry_after)
        } else {
            message
        },
        RequestError::Transport => request_message(RequestError::Transport),
        RequestError::InvalidResponse => request_message(RequestError::InvalidResponse),
    }
}

/// What `quota_error` shows.
pub open spec fn quota_error_spec(error: RequestError) -> Seq<char> {
    match error {
        RequestError::Http(status, message, metadata) => if status == 429 {
            match metadata.quota {
                Some(q) => if q.remaining == 0 {
                    "Daily limit reached · reset "@ + reset_label(q.reset@)
                } else {
                    with_retry_hint(message@, metadata.retry_after)
                },
                None => with_retry_hint(message@, metadata.retry_after),
            }
        } else {
            message@
        },
        _ => request_message_spec(error),
    }
}

/// The message for a failed question: an exhausted daily quota names its reset
/// time; another rate limit adds the retry hint.
pub fn quota_error(error: RequestError) -> (r: String)
    ensures
        r@ == quota_error_spec(error),
{
    match error {
        RequestError::Http(status, message, metadata) => {
            if status == 429 {
                let exhausted = match &metadata.quota {
                    Some(q) => q.remaining == 0,
                    None => false,
                };
                if exhausted {
                    match metadata.quota {
                        Some(q) => {
                            let mut out = String::from_str("Daily limit reached · reset ");
                            append_str(&mut out, quota_reset(q.reset.as_str()).as_str());
                            out
                        },
                        None => message,
                    }
                } else {
                    retry_hint(message, metadata.retry_after)
                }
            } else {
                message
            }
        },
        RequestError::Transport => request_message(RequestError::Transport),
        RequestError::InvalidResponse => request_message(RequestError::InvalidResponse),
    }
}

/// How many characters of a server message are shown.
pub const MAX_SERVER_MESSAGE_CHARS: usize = 512;

/// The message for an error status: the server's own, cut to 512 characters,
/// or a fixed one for the status.
pub open spec fn error_message_spec(status: u16, message: Option<Seq<char>>) -> Seq<char> {
    match message {
        Some(m) if m.len() > 0 => take_chars(m, MAX_SERVER_MESSAGE_CHARS as nat),
        _ => if status == 401 {
            "Activation required"@
        } else if status == 413 {
            "Request is too large"@
        } else if status == 426 {
            "This FindOut version is no longer supported; update required"@
        } else if status == 429 {
            "Too many requests; try again shortly"@
        } else {
            "FindOut server error ("@ + decimal(status as nat) + ")"@
        },
    }
}

/// The message for an error response whose body held `message`, if any.
pub fn error_message(status: u16, message: Option<&str>) -> (r: String)
    ensures
        r@ == error_message_spec(status, option_str_view(message)),
{
    if let Some(m) = message {
        if m.unicode_len() > 0 {
            return take_chars_of(m, MAX_SERVER_MESSAGE_CHARS);
        }
    }
    if status == 401 {
        String::from_str("Activation required")
    } else if status == 413 {
        String::from_str("Request is too large")
    } else if status == 426 {
        String::from_str("This FindOut version is no longer supported; update required")
    } else if status == 429 {
        String::from_str("Too many requests; try again shortly")
    } else {
        let mut out = String::from_str("FindOut server error (");
        append_str(&mut out, decimal_string(status as u64).as_str());
        append_str(&mut out, ")");
        out
    }
}

/// The status line after an answer: the quota if the server sent one,
/// otherwise whether the answer searched the web.
pub open spec fn answer_status_spec(quota: Option<(u64, u64, Seq<char>)>, searched: bool) -> Seq<
    char,
> {
    match quota {
        Some((limit, remaining, reset)) => quota_status_spec(limit, remaining, reset),
        None => if searched {
            "Searched"@
        } else {
            "From knowledge"@
        },
    }
}

/// The status line after an answer.
pub fn answer_status(quota: &Option<QuotaMetadata>, searched: bool) -> (r: String)
    ensures
        r@ == answer_status_spec(
            match quota {
                Some(q) => Some((q.limit, q.remaining, q.reset@)),
                None => None,
            },
            searched,
        ),
{
    match quota {
        Some(q) => quota_status(q),
        None => if searched {
            String::from_str("Searched")
        } else {
            String::from_str("From knowledge")
        },
    }
}

/// What a failed question leads to.
pub struct QueryFailure {
    /// The status line.
    pub message: String,
    /// Whether the stored device token must be deleted.
    pub forget_token: bool,
}

/// A failed question: an unauthorised answer means the activation is gone;
/// anything else is shown as `quota_error` describes it.
pub fn query_failure(error: RequestError) -> (r: QueryFailure)
    ensures
        (error matches RequestError::Http(s, _, _) && s == 401) ==> r.forget_token && r.message@
            == "Activation required"@,
        !(error matches RequestError::Http(s, _, _) && s == 401) ==> !r.forget_token
            && r.message@ == quota_error_spec(error),
{
    let unauthorised = match &error {
        RequestError::Http(s, _, _) => *s == 401,
        _ => false,
    };
    if unauthorised {
        QueryFailure { message: String::from_str("Activation required"), forget_token: true }
    } else {
        QueryFailure { message: quota_error(error), forget_token: false }
    }
}

/// Whether a failed question's message means the activation is gone, so the
/// popup asks for a key again.
pub fn deactivates(message: &str) -> (r: bool)
    ensures
        r == (message@ == "Activation required"@),
{
    str_equal(message, "Activation required")
}

} // verus!
