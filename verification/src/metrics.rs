//! The rows of the local latency log of development builds.
use vstd::prelude::*;

use crate::text::{append_str, decimal, decimal_string};

verus! {

broadcast use vstd::string::group_string_axioms;

/// The first line of the log.
pub const METRICS_HEADER: &'static str =
    "timestamp_unix_ms,roundtrip_ms,outcome,searched,force_search,had_image";

/// `true` or `false`, as `format!` writes a `bool`.
pub open spec fn bool_text(b: bool) -> Seq<char> {
    if b {
        "true"@
    } else {
        "false"@
    }
}

/// One row of the log: when, how long, the outcome and the flags, comma
/// separated; it holds no question, answer, image, key or token.
pub open spec fn metric_row_spec(
    timestamp_ms: u64,
    roundtrip_ms: u64,
    outcome: Seq<char>,
    searched: bool,
    force_search: bool,
    had_image: bool,
) -> Seq<char> {
    decimal(timestamp_ms as nat) + ","@ + decimal(roundtrip_ms as nat) + ","@ + outcome + ","@
        + bool_text(searched) + ","@ + bool_text(force_search) + ","@ + bool_text(had_image)
}

fn bool_str(b: bool) -> (r: &'static str)
    ensures
        r@ == bool_text(b),
{
    if b {
        "true"
    } else {
        "false"
    }
}

/// The log row of one question.
pub fn metric_row(
    timestamp_ms: u64,
    roundtrip_ms: u64,
    outcome: &str,
    searched: bool,
    force_search: bool,
    had_image: bool,
) -> (r: String)
    ensures
        r@ == metric_row_spec(timestamp_ms, roundtrip_ms, outcome@, searched, force_search, had_image),
{
    let mut out = decimal_string(timestamp_ms);
    append_str(&mut out, ",");
    append_str(&mut out, decimal_string(roundtrip_ms).as_str());
    append_str(&mut out, ",");
    append_str(&mut out, outcome);
    append_str(&mut out, ",");
    append_str(&mut out, bool_str(searched));
    append_str(&mut out, ",");
    append_str(&mut out, bool_str(force_search));
    append_str(&mut out, ",");
    append_str(&mut out, bool_str(had_image));
    out
}

/// What appending `row` adds to the log: the header first when the log is
/// empty or could not be examined (`existing_len` is `None`), then the row,
/// each on a line of its own.
pub fn metrics_append_text(existing_len: Option<u64>, row: &str) -> (r: String)
    ensures
        r@ == (match existing_len {
            Some(n) if n > 0 => Seq::<char>::empty(),
            _ => METRICS_HEADER@ + "\n"@,
        }) + row@ + "\n"@,
{
    let mut out = String::new();
    let needs_header = match existing_len {
        Some(n) => n == 0,
        None => true,
    };
    if needs_header {
        append_str(&mut out, METRICS_HEADER);
        append_str(&mut out, "\n");
    }
    append_str(&mut out, row);
    append_str(&mut out, "\n");
    out
}

} // verus!
