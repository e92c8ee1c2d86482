use findout::quota::{
    answer_status, deactivates, error_message, parse_quota_metadata, query_failure, quota_error, quota_reset,
    quota_status, request_message, response_metadata, retryable_error, QuotaMetadata,
    RequestError, ResponseMetadata,
};

fn quota_fields(q: &Option<QuotaMetadata>) -> Option<(u64, u64, String)> {
    q.as_ref().map(|q| (q.limit, q.remaining, q.reset.clone()))
}

#[test]
fn parses_quota_headers_case_insensitively() {
    let response: ureq::Response = "HTTP/1.1 200 OK\r\nx-findout-daily-limit: 37\r\nX-FINDOUT-DAILY-REMAINING: 12\r\nX-FindOut-Daily-Reset: 2026-09-08T00:00:00.000Z\r\n\r\n{}"
        .parse()
        .unwrap();
    let metadata = response_metadata(
        response.header("X-FindOut-Daily-Limit"),
        response.header("X-FindOut-Daily-Remaining"),
        response.header("X-FindOut-Daily-Reset"),
        response.header("Retry-After"),
    );
    assert_eq!(
        quota_fields(&metadata.quota),
        Some((37, 12, "2026-09-08T00:00:00.000Z".to_owned()))
    );
    assert_eq!(metadata.retry_after, None);
}

#[test]
fn parses_only_complete_valid_utc_quota_metadata() {
    let reset = "2026-09-08T00:00:00.000Z";
    assert_eq!(
        quota_fields(&parse_quota_metadata("37", "12", reset)),
        Some((37, 12, reset.to_owned()))
    );
    assert!(parse_quota_metadata("bad", "12", reset).is_none());
    assert!(parse_quota_metadata("37", "bad", reset).is_none());
    assert!(parse_quota_metadata("37", "12", "tomorrow").is_none());
    assert!(parse_quota_metadata("37", "12", "2026-09-08T01:00:00+01:00").is_none());
}

#[test]
fn formats_server_quota_without_hardcoding_the_limit() {
    let quota = QuotaMetadata {
        limit: 37,
        remaining: 12,
        reset: "2026-09-08T00:00:00.000Z".to_owned(),
    };
    assert_eq!(
        quota_status(&quota),
        "12/37 left · reset 2026-09-08 00:00 UTC"
    );
    assert_eq!(
        quota_error(RequestError::Http(
            429,
            "ignored".to_owned(),
            ResponseMetadata {
                quota: Some(QuotaMetadata {
                    remaining: 0,
                    ..quota
                }),
                retry_after: Some(30),
            }
        )),
        "Daily limit reached · reset 2026-09-08 00:00 UTC"
    );
    assert_eq!(
        quota_error(RequestError::Http(
            429,
            "Server busy".to_owned(),
            ResponseMetadata {
                quota: None,
                retry_after: Some(30),
            }
        )),
        "Server busy · retry in 30s"
    );
}

#[test]
fn quota_numbers_parse_as_unsigned_integers() {
    let reset = "2026-09-08T00:00:00Z";
    assert_eq!(
        quota_fields(&parse_quota_metadata("+37", "0", reset)),
        Some((37, 0, reset.to_owned()))
    );
    assert!(parse_quota_metadata("-1", "0", reset).is_none());
    assert!(parse_quota_metadata("", "0", reset).is_none());
    assert!(parse_quota_metadata("18446744073709551616", "0", reset).is_none());
    assert_eq!(
        quota_fields(&parse_quota_metadata("18446744073709551615", "0", reset)),
        Some((u64::MAX, 0, reset.to_owned()))
    );
    assert!(parse_quota_metadata("37", "12", "2026-09-08T00:00:00-00:30").is_none());
}

#[test]
fn reset_times_show_their_own_clock() {
    assert_eq!(quota_reset("2026-09-08T07:05:09Z"), "2026-09-08 07:05 UTC");
    assert_eq!(quota_reset("2026-09-08T01:00:00+01:00"), "2026-09-08 01:00 UTC");
    assert_eq!(quota_reset("tomorrow"), "tomorrow");
}

#[test]
fn response_metadata_reads_a_positive_retry_after() {
    let m = response_metadata(None, None, None, Some("12"));
    assert_eq!(m.retry_after, Some(12));
    assert!(m.quota.is_none());
    assert_eq!(response_metadata(None, None, None, Some("0")).retry_after, None);
    assert_eq!(response_metadata(None, None, None, Some("soon")).retry_after, None);
    let partial = response_metadata(Some("37"), None, Some("2026-09-08T00:00:00Z"), None);
    assert!(partial.quota.is_none());
}

#[test]
fn error_messages_prefer_the_server_text() {
    assert_eq!(error_message(401, None), "Activation required");
    assert_eq!(error_message(413, Some("")), "Request is too large");
    assert_eq!(
        error_message(426, None),
        "This FindOut version is no longer supported; update required"
    );
    assert_eq!(error_message(429, None), "Too many requests; try again shortly");
    assert_eq!(error_message(503, None), "FindOut server error (503)");
    assert_eq!(error_message(503, Some("Down for maintenance")), "Down for maintenance");
    let long = "ü".repeat(600);
    assert_eq!(error_message(500, Some(&long)).chars().count(), 512);
}

fn http(status: u16, message: &str, retry_after: Option<u64>) -> RequestError {
    RequestError::Http(
        status,
        message.to_owned(),
        ResponseMetadata { quota: None, retry_after },
    )
}

#[test]
fn request_errors_are_described() {
    assert_eq!(request_message(RequestError::Transport), "Cannot reach the FindOut server");
    assert_eq!(
        request_message(RequestError::InvalidResponse),
        "Invalid response from the FindOut server"
    );
    assert_eq!(request_message(http(500, "Oops", Some(3))), "Oops");
    assert_eq!(retryable_error(http(429, "Busy", Some(5))), "Busy · retry in 5s");
    assert_eq!(retryable_error(http(429, "Busy", None)), "Busy");
    assert_eq!(retryable_error(http(500, "Oops", Some(5))), "Oops");
    assert_eq!(quota_error(http(503, "Later", Some(5))), "Later");
    assert_eq!(quota_error(RequestError::Transport), "Cannot reach the FindOut server");
}

#[test]
fn unauthorised_questions_forget_the_token() {
    let failure = query_failure(http(401, "Token revoked", None));
    assert!(failure.forget_token);
    assert_eq!(failure.message, "Activation required");
    let failure = query_failure(http(429, "Busy", Some(2)));
    assert!(!failure.forget_token);
    assert_eq!(failure.message, "Busy · retry in 2s");
}

#[test]
fn answer_status_shows_quota_or_source() {
    assert_eq!(answer_status(&None, true), "Searched");
    assert_eq!(answer_status(&None, false), "From knowledge");
    let quota = QuotaMetadata {
        limit: 5,
        remaining: 4,
        reset: "2026-01-02T03:04:05Z".to_owned(),
    };
    assert_eq!(
        answer_status(&Some(quota), true),
        "4/5 left · reset 2026-01-02 03:04 UTC"
    );
}

#[test]
fn only_activation_errors_deactivate() {
    assert!(deactivates("Activation required"));
    assert!(!deactivates("Activation required."));
    assert!(!deactivates("Server busy"));
}
