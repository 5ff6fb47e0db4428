use atlassian_cli::error::ApiError;
use atlassian_cli::ratelimit::{RateLimitHeaders, RateLimitInfo};
use atlassian_cli::request::{
    classify_response, wants_body_text, wants_decoding, ApiClient, AuthMethod, Exchange, Pause,
    ResponseHead, Target,
};
use std::cell::RefCell;
use std::time::{SystemTime, UNIX_EPOCH};
use atlassian_cli::retry::{RetryConfig, RetryState, Verdict};
use backoff::backoff::Backoff;
use backoff::ExponentialBackoff;
use std::time::Duration;

fn head(status: u16) -> ResponseHead {
    ResponseHead {
        status,
        status_line: format!("{} Something", status),
        rate_limit: RateLimitHeaders { limit: None, remaining: None, reset: None },
        retry_after: None,
    }
}

fn body(text: &str) -> Option<String> {
    Some(String::from(text))
}

#[test]
fn new_client_has_defaults() {
    let client = ApiClient::new("https://example.atlassian.net").unwrap();
    assert_eq!(client.base_url(), "https://example.atlassian.net/");
    assert_eq!(client.auth(), &None);
    assert_eq!(client.retry_config(), RetryConfig::default());
    assert_eq!(
        client.rate_limiter().get_info(),
        RateLimitInfo { limit: None, remaining: None, reset_at: None }
    );
    assert_eq!(client.wait_before_request(), None);
}

#[test]
fn new_client_rejects_what_is_no_url() {
    for text in ["", "not a url", "/relative/path", "http://"] {
        match ApiClient::new(text) {
            Err(ApiError::InvalidUrl(_)) => {}
            Err(other) => panic!("{:?}: {:?}", text, other),
            Ok(_) => panic!("{:?} was accepted", text),
        }
    }
    assert_eq!(
        ApiClient::new("").err(),
        Some(ApiError::InvalidUrl(url::ParseError::RelativeUrlWithoutBase))
    );
}

#[test]
fn credentials_and_retry_settings() {
    let config = RetryConfig {
        max_retries: 7,
        initial_interval_ms: 10,
        max_interval_ms: 20,
        multiplier_milli: 1500,
    };
    let client = ApiClient::new("https://example.atlassian.net")
        .unwrap()
        .with_basic_auth("me@example.com", "s3cret")
        .with_retry_config(config);
    assert_eq!(
        client.auth(),
        &Some(AuthMethod::Basic {
            username: String::from("me@example.com"),
            token: String::from("s3cret")
        })
    );
    assert_eq!(client.retry_config(), config);
    let client = client.with_bearer_token("abc");
    assert_eq!(client.auth(), &Some(AuthMethod::Bearer { token: String::from("abc") }));
    assert_eq!(client.retry_config(), config);
    assert_eq!(client.base_url(), "https://example.atlassian.net/");
}

#[test]
fn resolve_joins_the_path_to_the_base() {
    let client = ApiClient::new("https://example.atlassian.net/wiki/").unwrap();
    let url = String::from("https://example.atlassian.net/wiki/rest/api/content");
    assert_eq!(
        client.resolve("/rest/api/content"),
        Ok(Target { url: url.clone(), path: String::from("/rest/api/content") })
    );
    assert_eq!(
        client.resolve("rest/api/content"),
        Ok(Target { url, path: String::from("rest/api/content") })
    );
}

#[test]
fn resolve_drops_one_leading_slash_only() {
    let client = ApiClient::new("https://example.atlassian.net/wiki/").unwrap();
    let target = client.resolve("//other.example/x").unwrap();
    assert_eq!(target.url, "https://example.atlassian.net/other.example/x");
    assert_eq!(target.path, "//other.example/x");
}

#[test]
fn resolve_keeps_query_out_of_the_path() {
    let client = ApiClient::new("https://example.atlassian.net").unwrap();
    let target = client.resolve("/rest/api/3/search?jql=project%20%3D%20X&startAt=0").unwrap();
    assert_eq!(
        target.url,
        "https://example.atlassian.net/rest/api/3/search?jql=project%20%3D%20X&startAt=0"
    );
    assert_eq!(target.path, "/rest/api/3/search?jql=project%20%3D%20X&startAt=0");
}

#[test]
fn resolve_reports_a_rejected_reference() {
    let client = ApiClient::new("https://example.atlassian.net").unwrap();
    match client.resolve("https://[::1") {
        Err(ApiError::InvalidUrl(_)) => {}
        other => panic!("{:?}", other),
    }
}

#[test]
fn empty_path_resolves_to_the_base() {
    let client = ApiClient::new("https://example.atlassian.net/wiki/").unwrap();
    let target = client.resolve("").unwrap();
    assert_eq!(target.url, "https://example.atlassian.net/wiki/");
    assert_eq!(target.path, "");
    let target = client.resolve("/").unwrap();
    assert_eq!(target.url, "https://example.atlassian.net/wiki/");
    assert_eq!(target.path, "/");
}

#[test]
fn classify_by_status() {
    assert_eq!(
        classify_response(&head(401), "/x", None),
        Err(ApiError::AuthenticationFailed {
            message: String::from("Invalid or expired credentials")
        })
    );
    assert_eq!(
        classify_response(&head(404), "/rest/thing/1", body("ignored")),
        Err(ApiError::NotFound { resource: String::from("/rest/thing/1") })
    );
    assert_eq!(
        classify_response(&head(400), "/x", body("field missing")),
        Err(ApiError::BadRequest { message: String::from("field missing") })
    );
    assert_eq!(
        classify_response(&head(400), "/x", None),
        Err(ApiError::BadRequest { message: String::from("Bad request") })
    );
    assert_eq!(
        classify_response(&head(500), "/x", body("down")),
        Err(ApiError::ServerError { status: 500, message: String::from("down") })
    );
    assert_eq!(
        classify_response(&head(599), "/x", None),
        Err(ApiError::ServerError { status: 599, message: String::from("Server error") })
    );
    assert_eq!(classify_response(&head(200), "/x", None), Ok(()));
    assert_eq!(classify_response(&head(204), "/x", body("anything")), Ok(()));
    assert_eq!(classify_response(&head(299), "/x", None), Ok(()));
}

#[test]
fn classify_other_statuses_as_server_error() {
    assert_eq!(
        classify_response(&head(302), "/x", body("moved")),
        Err(ApiError::ServerError { status: 302, message: String::from("moved") })
    );
    assert_eq!(
        classify_response(&head(418), "/x", None),
        Err(ApiError::ServerError {
            status: 418,
            message: String::from("Unexpected status: 418 Something")
        })
    );
    assert_eq!(
        classify_response(&head(600), "/x", None),
        Err(ApiError::ServerError {
            status: 600,
            message: String::from("Unexpected status: 600 Something")
        })
    );
    for status in [100u16, 199, 300, 403, 409, 499, 600, 999] {
        match classify_response(&head(status), "/x", None) {
            Err(e @ ApiError::ServerError { .. }) => assert!(!e.is_retryable()),
            other => panic!("{}: {:?}", status, other),
        }
    }
}

#[test]
fn classify_rate_limited_reads_retry_after() {
    let mut h = head(429);
    assert_eq!(
        classify_response(&h, "/x", None),
        Err(ApiError::RateLimitExceeded { retry_after: 60 })
    );
    h.retry_after = Some(String::from("7"));
    assert_eq!(
        classify_response(&h, "/x", None),
        Err(ApiError::RateLimitExceeded { retry_after: 7 })
    );
    h.retry_after = Some(String::from("Wed, 21 Oct 2015 07:28:00 GMT"));
    assert_eq!(
        classify_response(&h, "/x", None),
        Err(ApiError::RateLimitExceeded { retry_after: 60 })
    );
    h.retry_after = Some(String::from("18446744073709551615"));
    assert_eq!(
        classify_response(&h, "/x", None),
        Err(ApiError::RateLimitExceeded { retry_after: u64::MAX })
    );
}

#[test]
fn retryable_after_classification() {
    let retryable = |status: u16| match classify_response(&head(status), "/x", None) {
        Ok(()) => false,
        Err(e) => e.is_retryable(),
    };
    assert!(retryable(429));
    assert!(retryable(500));
    assert!(retryable(502));
    assert!(!retryable(400));
    assert!(!retryable(401));
    assert!(!retryable(404));
    assert!(!retryable(200));
}

#[test]
fn body_text_is_wanted_for_messages_only() {
    assert!(wants_body_text(400));
    assert!(wants_body_text(500));
    assert!(wants_body_text(503));
    assert!(wants_body_text(302));
    assert!(wants_body_text(418));
    assert!(!wants_body_text(200));
    assert!(!wants_body_text(201));
    assert!(!wants_body_text(401));
    assert!(!wants_body_text(404));
    assert!(!wants_body_text(429));
}

#[test]
fn every_response_feeds_the_rate_limiter() {
    let mut client = ApiClient::new("https://example.atlassian.net").unwrap();
    let target = client.resolve("/rest/x").unwrap();
    let mut h = head(500);
    h.rate_limit = RateLimitHeaders {
        limit: Some(String::from("100")),
        remaining: Some(String::from("5")),
        reset: Some(String::from("1700000000")),
    };
    let (class, warn) = client.handle_response(&h, &target, body("oops"));
    assert_eq!(class, Err(ApiError::ServerError { status: 500, message: String::from("oops") }));
    assert!(warn);
    assert_eq!(
        client.rate_limiter().get_info(),
        RateLimitInfo { limit: Some(100), remaining: Some(5), reset_at: Some(1_700_000_000) }
    );
    let mut ok = head(200);
    ok.rate_limit.remaining = Some(String::from("99"));
    let (class, warn) = client.handle_response(&ok, &target, None);
    assert_eq!(class, Ok(()));
    assert!(!warn);
    assert_eq!(client.rate_limiter().get_info().remaining, Some(99));
    let (class, _) = client.handle_response(&head(404), &target, None);
    assert_eq!(class, Err(ApiError::NotFound { resource: String::from("/rest/x") }));
}

fn conclude<T>(
    client: &mut ApiClient,
    max_retries: usize,
    exchange: Result<Exchange<T>, ApiError>,
) -> Verdict<T> {
    let config = RetryConfig {
        max_retries,
        initial_interval_ms: 1,
        max_interval_ms: 2,
        multiplier_milli: 2000,
    };
    let mut retry = RetryState::new(&config);
    let target = client.resolve("/rest/x").unwrap();
    client.conclude_attempt(&mut retry, &target, exchange).0
}

#[test]
fn attempt_with_a_decoded_success_is_done() {
    let mut client = ApiClient::new("https://example.atlassian.net").unwrap();
    let mut ok = head(200);
    ok.rate_limit.remaining = Some(String::from("3"));
    let step = conclude(&mut client, 3, Ok(Exchange { head: ok, body: None, decoded: Some(Ok(41)) }));
    match step {
        Verdict::Done(result) => assert_eq!(result, Ok(41)),
        other => panic!("{:?}", other),
    }
    assert_eq!(client.rate_limiter().get_info().remaining, Some(3));
}

#[test]
fn attempt_with_an_undecodable_success_is_an_invalid_response() {
    let mut client = ApiClient::new("https://example.atlassian.net").unwrap();
    let step = conclude::<i32>(
        &mut client,
        3,
        Ok(Exchange { head: head(200), body: None, decoded: Some(Err(String::from("EOF"))) }),
    );
    match step {
        Verdict::Done(result) => {
            assert_eq!(result, Err(ApiError::InvalidResponse(String::from("EOF"))))
        }
        other => panic!("{:?}", other),
    }
    let step = conclude::<i32>(
        &mut client,
        3,
        Ok(Exchange { head: head(201), body: None, decoded: None }),
    );
    match step {
        Verdict::Done(result) => assert_eq!(
            result,
            Err(ApiError::InvalidResponse(String::from("Response body was not decoded")))
        ),
        other => panic!("{:?}", other),
    }
}

#[test]
fn attempt_with_a_transient_failure_waits_and_still_feeds_the_limiter() {
    let mut client = ApiClient::new("https://example.atlassian.net").unwrap();
    let mut busy = head(503);
    busy.rate_limit.limit = Some(String::from("10"));
    let step = conclude::<i32>(
        &mut client,
        3,
        Ok(Exchange { head: busy, body: body("busy"), decoded: Some(Ok(1)) }),
    );
    match step {
        Verdict::Retry(e) => {
            assert_eq!(e, ApiError::ServerError { status: 503, message: String::from("busy") })
        }
        other => panic!("{:?}", other),
    }
    assert_eq!(client.rate_limiter().get_info().limit, Some(10));
    let step = conclude::<i32>(
        &mut client,
        1,
        Ok(Exchange { head: head(503), body: body("busy"), decoded: None }),
    );
    match step {
        Verdict::Done(result) => assert_eq!(
            result,
            Err(ApiError::ServerError { status: 503, message: String::from("busy") })
        ),
        other => panic!("{:?}", other),
    }
}

#[test]
fn attempt_with_a_transport_failure_leaves_the_limiter_alone() {
    let mut client = ApiClient::new("https://example.atlassian.net").unwrap();
    let step = conclude::<i32>(
        &mut client,
        3,
        Err(ApiError::RequestFailed { message: String::from("connection reset") }),
    );
    match step {
        Verdict::Done(result) => assert_eq!(
            result,
            Err(ApiError::RequestFailed { message: String::from("connection reset") })
        ),
        other => panic!("{:?}", other),
    }
    assert_eq!(
        client.rate_limiter().get_info(),
        RateLimitInfo { limit: None, remaining: None, reset_at: None }
    );
}

#[test]
fn decoding_is_wanted_for_successes_only() {
    assert!(wants_decoding(200));
    assert!(wants_decoding(204));
    assert!(wants_decoding(299));
    assert!(!wants_decoding(199));
    assert!(!wants_decoding(300));
    assert!(!wants_decoding(404));
    assert!(!wants_decoding(500));
}

fn quick_schedule() -> RefCell<ExponentialBackoff> {
    RefCell::new(ExponentialBackoff {
        current_interval: Duration::from_millis(1),
        initial_interval: Duration::from_millis(1),
        max_interval: Duration::from_millis(2),
        max_elapsed_time: None,
        ..Default::default()
    })
}

fn reply(status: u16, text: Option<&str>, value: Option<i32>) -> Result<Exchange<i32>, ApiError> {
    Ok(Exchange { head: head(status), body: text.map(String::from), decoded: value.map(Ok) })
}

#[test]
fn request_succeeds_at_the_first_attempt() {
    let mut client =
        ApiClient::new("https://example.atlassian.net").unwrap().with_bearer_token("t0k3n");
    let seen = RefCell::new(Vec::new());
    let pauses = RefCell::new(0);
    let waits = quick_schedule();
    let result = client.request(
        "/rest/api/3/myself",
        |target: &Target, auth: &Option<AuthMethod>| {
            seen.borrow_mut().push((target.clone(), auth.clone()));
            reply(200, None, Some(7))
        },
        || waits.borrow_mut().next_backoff(),
        |_| *pauses.borrow_mut() += 1,
    );
    assert_eq!(result, Ok(7));
    assert_eq!(pauses.into_inner(), 0);
    assert_eq!(
        seen.into_inner(),
        vec![(
            Target {
                url: String::from("https://example.atlassian.net/rest/api/3/myself"),
                path: String::from("/rest/api/3/myself"),
            },
            Some(AuthMethod::Bearer { token: String::from("t0k3n") }),
        )]
    );
}

#[test]
fn request_retries_transient_failures() {
    let mut client = ApiClient::new("https://example.atlassian.net").unwrap();
    let calls = RefCell::new(0);
    let pauses = RefCell::new(Vec::new());
    let waits = quick_schedule();
    let result = client.request(
        "/x",
        |_: &Target, _: &Option<AuthMethod>| {
            *calls.borrow_mut() += 1;
            if *calls.borrow() < 3 {
                let mut busy = head(503);
                busy.rate_limit.remaining = Some((10 - *calls.borrow()).to_string());
                Ok(Exchange { head: busy, body: body("busy"), decoded: None })
            } else {
                reply(200, None, Some(1))
            }
        },
        || waits.borrow_mut().next_backoff(),
        |pause| pauses.borrow_mut().push(pause),
    );
    assert_eq!(result, Ok(1));
    assert_eq!(calls.into_inner(), 3);
    let pauses = pauses.into_inner();
    assert_eq!(pauses.len(), 2);
    assert!(pauses.iter().all(|p| matches!(p, Pause::Backoff(_))));
    assert_eq!(client.rate_limiter().get_info().remaining, Some(8));
}

#[test]
fn request_gives_up_at_the_ceiling_with_the_last_failure() {
    let mut client = ApiClient::new("https://example.atlassian.net").unwrap();
    let calls = RefCell::new(0);
    let waits = quick_schedule();
    let result: Result<i32, ApiError> = client.request(
        "/x",
        |_: &Target, _: &Option<AuthMethod>| {
            *calls.borrow_mut() += 1;
            let mut limited = head(429);
            limited.retry_after = Some(calls.borrow().to_string());
            Ok(Exchange { head: limited, body: None, decoded: None })
        },
        || waits.borrow_mut().next_backoff(),
        |_| (),
    );
    assert_eq!(result, Err(ApiError::RateLimitExceeded { retry_after: 3 }));
    assert_eq!(calls.into_inner(), 3);
}

#[test]
fn request_does_not_retry_what_is_not_transient() {
    for (status, expected) in [
        (401, ApiError::AuthenticationFailed { message: String::from("Invalid or expired credentials") }),
        (404, ApiError::NotFound { resource: String::from("/x") }),
        (400, ApiError::BadRequest { message: String::from("no") }),
        (409, ApiError::ServerError { status: 409, message: String::from("no") }),
    ] {
        let mut client = ApiClient::new("https://example.atlassian.net").unwrap();
        let calls = RefCell::new(0);
        let pauses = RefCell::new(0);
        let waits = quick_schedule();
        let result: Result<i32, ApiError> = client.request(
            "/x",
            |_: &Target, _: &Option<AuthMethod>| {
                *calls.borrow_mut() += 1;
                reply(status, Some("no"), None)
            },
            || waits.borrow_mut().next_backoff(),
            |_| *pauses.borrow_mut() += 1,
        );
        assert_eq!(result, Err(expected));
        assert_eq!(calls.into_inner(), 1);
        assert_eq!(pauses.into_inner(), 0);
    }
}

#[test]
fn request_with_a_path_that_does_not_resolve_sends_nothing() {
    let mut client = ApiClient::new("https://example.atlassian.net").unwrap();
    let calls = RefCell::new(0);
    let waits = quick_schedule();
    let result: Result<i32, ApiError> = client.request(
        "https://[::1",
        |_: &Target, _: &Option<AuthMethod>| {
            *calls.borrow_mut() += 1;
            reply(200, None, Some(1))
        },
        || waits.borrow_mut().next_backoff(),
        |_| (),
    );
    assert!(matches!(result, Err(ApiError::InvalidUrl(_))), "{:?}", result);
    assert_eq!(calls.into_inner(), 0);
}

#[test]
fn request_waits_for_the_quota_before_anything_else() {
    let mut client = ApiClient::new("https://example.atlassian.net").unwrap();
    let target = client.resolve("/x").unwrap();
    let now = SystemTime::now().duration_since(UNIX_EPOCH).unwrap().as_secs();
    let mut spent = head(200);
    spent.rate_limit.remaining = Some(String::from("0"));
    spent.rate_limit.reset = Some((now + 30).to_string());
    client.handle_response(&spent, &target, None);

    let events = RefCell::new(Vec::new());
    let waits = quick_schedule();
    let result = client.request(
        "/x",
        |_: &Target, _: &Option<AuthMethod>| {
            events.borrow_mut().push(String::from("exchange"));
            let mut fresh = head(200);
            fresh.rate_limit.remaining = Some(String::from("99"));
            Ok(Exchange { head: fresh, body: None, decoded: Some(Ok(5)) })
        },
        || waits.borrow_mut().next_backoff(),
        |pause| match pause {
            Pause::RateLimit { seconds } => {
                assert!(28 <= seconds && seconds <= 30, "{}", seconds);
                events.borrow_mut().push(String::from("quota"));
            }
            Pause::Backoff(_) => events.borrow_mut().push(String::from("backoff")),
        },
    );
    assert_eq!(result, Ok(5));
    assert_eq!(events.into_inner(), vec!["quota", "exchange"]);
    assert_eq!(client.wait_before_request(), None);
}

#[test]
fn request_reports_a_transport_failure_as_it_is() {
    let mut client = ApiClient::new("https://example.atlassian.net").unwrap();
    let calls = RefCell::new(0);
    let waits = quick_schedule();
    let result: Result<i32, ApiError> = client.request(
        "/x",
        |_: &Target, _: &Option<AuthMethod>| {
            *calls.borrow_mut() += 1;
            Err(ApiError::RequestFailed { message: String::from("connection refused") })
        },
        || waits.borrow_mut().next_backoff(),
        |_| (),
    );
    assert_eq!(
        result,
        Err(ApiError::RequestFailed { message: String::from("connection refused") })
    );
    assert_eq!(calls.into_inner(), 1);
}

#[test]
fn not_found_names_the_path_as_it_was_asked_for() {
    let mut client = ApiClient::new("https://example.atlassian.net/wiki/").unwrap();
    for path in ["rest/api/content/1?expand=body", "/rest/api/content/1", "content/../1"] {
        let waits = quick_schedule();
        let sent = RefCell::new(Vec::new());
        let result: Result<i32, ApiError> = client.request(
            path,
            |target: &Target, _: &Option<AuthMethod>| {
                sent.borrow_mut().push(target.url.clone());
                reply(404, None, None)
            },
            || waits.borrow_mut().next_backoff(),
            |_| (),
        );
        assert_eq!(result, Err(ApiError::NotFound { resource: String::from(path) }));
        assert_eq!(sent.borrow().len(), 1);
        assert!(sent.borrow()[0].starts_with("https://example.atlassian.net/wiki/"));
    }
}
