//! One request, as far as it can be decided without touching the network:
//! where it goes, which credentials it carries, how its answer is
//! classified, and what the answer teaches the rate limiter.

use vstd::prelude::*;
use vstd::string::*;
use crate::decimal::{parse_u64, parse_unsigned};
use crate::error::{ApiError, Failure};
use crate::ratelimit::{updated, usage_high, wait_at, RateLimitHeaders, RateLimitInfo, RateLimiter};
use crate::retry::{
    concluded, counted, in_sequence, retries, verdict_of, RetryConfig, RetryState, RetryStep,
    Verdict,
};
use std::time::Duration;
use crate::urls::{join_url, parse_url, url_join, url_parse};

verus! {

/// The credentials attached to every request of one client.
#[derive(Debug, Clone, PartialEq, Eq)]
pub enum AuthMethod {
    Basic { username: String, token: String },
    Bearer { token: String },
}

/// Where a request goes: the full URL, and the path as it was asked for.
#[derive(Debug, Clone, PartialEq, Eq)]
pub struct Target {
    pub url: String,
    pub path: String,
}

/// What the logic reads of a response before its body: the status code, the
/// status as the transport prints it, the quota headers and `retry-after`.
#[derive(Debug, Clone, PartialEq, Eq)]
pub struct ResponseHead {
    pub status: u16,
    pub status_line: String,
    pub rate_limit: RateLimitHeaders,
    pub retry_after: Option<String>,
}

/// A request path as it is joined to the base URL: without its leading `/`.
pub open spec fn relative(path: Seq<char>) -> Seq<char> {
    if path.len() > 0 && path[0] == '/' {
        path.drop_first()
    } else {
        path
    }
}

/// The seconds to wait after a 429: what `retry-after` says, or 60 where
/// the header is missing or is no decimal number.
pub open spec fn retry_after_seconds(header: Option<String>) -> u64 {
    match header {
        Some(text) => match parse_unsigned(text@, u64::MAX as int) {
            Some(v) => v as u64,
            None => 60,
        },
        None => 60,
    }
}

/// The text of `body`, or `fallback` where the body could not be read.
pub open spec fn body_or(body: Option<String>, fallback: Seq<char>) -> Seq<char> {
    match body {
        Some(text) => text@,
        None => fallback,
    }
}

/// The status is a success (2xx).
pub open spec fn is_success(status: u16) -> bool {
    200 <= status <= 299
}

/// The status is a server error (5xx).
pub open spec fn is_server_error(status: u16) -> bool {
    500 <= status <= 599
}

/// The failure message is taken from the body for this status.
pub open spec fn reads_body(status: u16) -> bool {
    status != 401 && status != 404 && status != 429 && !is_success(status)
}

/// The failure that a response stands for, or `None` for a success whose
/// body is still to be decoded. `resource` is the path as it was asked
/// for.
pub open spec fn classified(head: ResponseHead, resource: Seq<char>, body: Option<String>) -> Option<
    Failure,
> {
    let status = head.status;
    if status == 401 {
        Some(Failure::AuthenticationFailed { message: "Invalid or expired credentials"@ })
    } else if status == 404 {
        Some(Failure::NotFound { resource })
    } else if status == 400 {
        Some(Failure::BadRequest { message: body_or(body, "Bad request"@) })
    } else if status == 429 {
        Some(Failure::RateLimitExceeded { retry_after: retry_after_seconds(head.retry_after) })
    } else if is_server_error(status) {
        Some(Failure::ServerError { status, message: body_or(body, "Server error"@) })
    } else if is_success(status) {
        None
    } else {
        Some(
            Failure::ServerError {
                status,
                message: body_or(body, "Unexpected status: "@ + head.status_line@),
            },
        )
    }
}

/// What came back for one attempt: the head of the response, the text of
/// its body where the body was read as text, and the value decoded from the
/// body, or the reason why it could not be decoded, where decoding was
/// tried.
#[derive(Debug)]
pub struct Exchange<T> {
    pub head: ResponseHead,
    pub body: Option<String>,
    pub decoded: Option<Result<T, String>>,
}

/// An outcome with its failure as texts.
pub open spec fn outcome_view<T>(outcome: Result<T, ApiError>) -> Result<T, Failure> {
    match outcome {
        Ok(value) => Ok(value),
        Err(e) => Err(e@),
    }
}

/// The outcome of an attempt that got a response: the failure that the
/// status stands for, or, for a success, the decoded value. A success whose
/// body could not be decoded, or was not decoded at all, is an
/// `InvalidResponse`.
pub open spec fn attempt_outcome<T>(exchange: Exchange<T>, resource: Seq<char>) -> Result<
    T,
    Failure,
> {
    match classified(exchange.head, resource, exchange.body) {
        Some(failure) => Err(failure),
        None => match exchange.decoded {
            Some(Ok(value)) => Ok(value),
            Some(Err(reason)) => Err(Failure::InvalidResponse(reason@)),
            None => Err(Failure::InvalidResponse("Response body was not decoded"@)),
        },
    }
}

/// An attempt whose exchange was `exchange` ended in `outcome`: as
/// [`attempt_outcome`] says where a response came, and in the failure of
/// the transport where none came.
pub open spec fn attempt_ended<T>(
    exchange: Result<Exchange<T>, ApiError>,
    resource: Seq<char>,
    outcome: Result<T, ApiError>,
) -> bool {
    match exchange {
        Ok(x) => outcome_view(outcome) == attempt_outcome(x, resource),
        Err(e) => outcome == Err::<T, ApiError>(e),
    }
}

/// The verdict `verdict` follows an attempt whose exchange was `exchange`
/// and that was attempt number `made` of at most `ceiling`: the attempt
/// ended in `outcome`, and the verdict is what that outcome calls for.
pub open spec fn verdict_follows<T>(
    exchange: Result<Exchange<T>, ApiError>,
    resource: Seq<char>,
    outcome: Result<T, ApiError>,
    made: usize,
    ceiling: usize,
    verdict: Verdict<T>,
) -> bool {
    &&& attempt_ended(exchange, resource, outcome)
    &&& verdict == verdict_of(outcome, made, ceiling)
}

/// The quota record after the exchanges of a request: each response
/// updated it in turn; a failure of the transport left it alone.
pub open spec fn quota_after<T>(
    start: RateLimitInfo,
    exchanges: Seq<Result<Exchange<T>, ApiError>>,
) -> RateLimitInfo
    decreases exchanges.len(),
{
    if exchanges.len() == 0 {
        start
    } else {
        let before = quota_after(start, exchanges.drop_last());
        match exchanges.last() {
            Ok(x) => updated(before, x.head.rate_limit),
            Err(_) => before,
        }
    }
}

/// The attempts of a request had the exchanges `exchanges` and ended in
/// `outcomes`, one after the other: each exchange is what `exchange`
/// returned for the target and the credentials, each attempt ended as its
/// exchange determines, and each but the last was followed by another
/// attempt.
pub open spec fn exchanged<T, F: Fn(&Target, &Option<AuthMethod>) -> Result<Exchange<T>, ApiError>>(
    exchange: F,
    target: Target,
    auth: Option<AuthMethod>,
    exchanges: Seq<Result<Exchange<T>, ApiError>>,
    outcomes: Seq<Result<T, ApiError>>,
    max_retries: usize,
) -> bool {
    &&& in_sequence(outcomes, max_retries)
    &&& outcomes.len() == exchanges.len()
    &&& forall|i: int|
        0 <= i < exchanges.len() ==> call_ensures(exchange, (&target, &auth), #[trigger] exchanges[i])
    &&& forall|i: int|
        0 <= i < exchanges.len() ==> #[trigger] attempt_ended(
            exchanges[i],
            target.path@,
            outcomes[i],
        )
}

/// A pause in the course of a request.
#[derive(Debug)]
pub enum Pause {
    /// The quota is used up: wait until the window resets.
    RateLimit { seconds: u64 },
    /// An attempt failed: wait before the next one.
    Backoff(Duration),
}

/// Whether the body of a response with this status is read as text for the
/// failure message.
pub fn wants_body_text(status: u16) -> (r: bool)
    ensures
        r == reads_body(status),
{
    status != 401 && status != 404 && status != 429 && !(status >= 200 && status <= 299)
}

/// Whether the body of a response with this status is decoded as the
/// value asked for.
pub fn wants_decoding(status: u16) -> (r: bool)
    ensures
        r == is_success(status),
{
    status >= 200 && status <= 299
}

fn read_retry_after(header: &Option<String>) -> (r: u64)
    ensures
        r == retry_after_seconds(*header),
{
    match header {
        Some(text) => match parse_u64(text.as_str()) {
            Some(v) => v,
            None => 60,
        },
        None => 60,
    }
}

fn message_or(body: Option<String>, fallback: String) -> (r: String)
    ensures
        r@ == body_or(body, fallback@),
{
    match body {
        Some(text) => text,
        None => fallback,
    }
}

/// Classifies a response by its status. `resource` is the path as it was
/// asked for; `body` is the text of the body, or `None` where it was not
/// read or could not be read.
pub fn classify_response(head: &ResponseHead, resource: &str, body: Option<String>) -> (r: Result<
    (),
    ApiError,
>)
    ensures
        match classified(*head, resource@, body) {
            None => r is Ok,
            Some(failure) => r matches Err(e) && e@ == failure,
        },
{
    let status = head.status;
    if status == 401 {
        Err(
            ApiError::AuthenticationFailed {
                message: String::from_str("Invalid or expired credentials"),
            },
        )
    } else if status == 404 {
        Err(ApiError::NotFound { resource: String::from_str(resource) })
    } else if status == 400 {
        Err(ApiError::BadRequest { message: message_or(body, String::from_str("Bad request")) })
    } else if status == 429 {
        Err(ApiError::RateLimitExceeded { retry_after: read_retry_after(&head.retry_after) })
    } else if status >= 500 && status <= 599 {
        Err(
            ApiError::ServerError {
                status,
                message: message_or(body, String::from_str("Server error")),
            },
        )
    } else if status >= 200 && status <= 299 {
        Ok(())
    } else {
        let fallback = String::from_str("Unexpected status: ").concat(head.status_line.as_str());
        Err(ApiError::ServerError { status, message: message_or(body, fallback) })
    }
}

/// The settings and the quota record behind every request to one server.
pub struct ApiClient {
    base_url: String,
    auth: Option<AuthMethod>,
    retry_config: RetryConfig,
    rate_limiter: RateLimiter,
}

impl ApiClient {
    /// The base URL, as the URL parser serialised it.
    pub closed spec fn base(&self) -> Seq<char> {
        self.base_url@
    }

    /// The credentials in use.
    pub closed spec fn credentials(&self) -> Option<AuthMethod> {
        self.auth
    }

    /// The retry settings in use.
    pub closed spec fn retry(&self) -> RetryConfig {
        self.retry_config
    }

    /// The quota as last reported by the server.
    pub closed spec fn quota(&self) -> RateLimitInfo {
        self.rate_limiter@
    }

    /// A client for the server at `base_url`, without credentials, with the
    /// standard retry settings and an empty quota record. Fails with
    /// `InvalidUrl` exactly when the URL parser rejects `base_url`.
    pub fn new(base_url: &str) -> (r: Result<Self, ApiError>)
        ensures
            match r {
                Ok(client) => {
                    &&& url_parse(base_url@) matches Some(parts)
                    &&& parts.0 == client.base()
                    &&& client.credentials() is None
                    &&& client.retry() == RetryConfig::standard()
                    &&& client.quota() == (RateLimitInfo {
                        limit: None,
                        remaining: None,
                        reset_at: None,
                    })
                },
                Err(e) => url_parse(base_url@) is None && e is InvalidUrl,
            },
    {
        match parse_url(base_url) {
            Ok(parts) => Ok(
                ApiClient {
                    base_url: parts.href,
                    auth: None,
                    retry_config: RetryConfig::default(),
                    rate_limiter: RateLimiter::new(),
                },
            ),
            Err(e) => Err(ApiError::InvalidUrl(e)),
        }
    }

    /// The same client with HTTP Basic credentials.
    pub fn with_basic_auth(self, username: &str, token: &str) -> (r: Self)
        ensures
            r.credentials() matches Some(AuthMethod::Basic { username: u, token: t }) && u@
                == username@ && t@ == token@,
            r.base() == self.base(),
            r.retry() == self.retry(),
            r.quota() == self.quota(),
    {
        let mut client = self;
        client.auth = Some(
            AuthMethod::Basic {
                username: String::from_str(username),
                token: String::from_str(token),
            },
        );
        client
    }

    /// The same client with a bearer token.
    pub fn with_bearer_token(self, token: &str) -> (r: Self)
        ensures
            r.credentials() matches Some(AuthMethod::Bearer { token: t }) && t@ == token@,
            r.base() == self.base(),
            r.retry() == self.retry(),
            r.quota() == self.quota(),
    {
        let mut client = self;
        client.auth = Some(AuthMethod::Bearer { token: String::from_str(token) });
        client
    }

    /// The same client with other retry settings.
    pub fn with_retry_config(self, config: RetryConfig) -> (r: Self)
        ensures
            r.retry() == config,
            r.base() == self.base(),
            r.credentials() == self.credentials(),
            r.quota() == self.quota(),
    {
        let mut client = self;
        client.retry_config = config;
        client
    }

    /// The credentials in use.
    pub fn auth(&self) -> (r: &Option<AuthMethod>)
        ensures
            *r == self.credentials(),
    {
        &self.auth
    }

    /// The retry settings in use.
    pub fn retry_config(&self) -> (r: RetryConfig)
        ensures
            r == self.retry(),
    {
        self.retry_config
    }

    /// The quota record.
    pub fn rate_limiter(&self) -> (r: &RateLimiter)
        ensures
            r@ == self.quota(),
    {
        &self.rate_limiter
    }

    /// The base URL.
    pub fn base_url(&self) -> (r: &str)
        ensures
            r@ == self.base(),
    {
        self.base_url.as_str()
    }

    /// The seconds to sleep before sending anything, going by the quota
    /// record and the clock: see [`RateLimiter::check_limit`].
    pub fn wait_before_request(&self) -> (r: Option<u64>)
        ensures
            exists|secs: i64, nanos: u32| r == wait_at(self.quota(), secs, nanos),
    {
        self.rate_limiter.check_limit()
    }

    /// Resolves a request path against the base URL. One leading `/` is
    /// dropped first, so that the path extends the base instead of replacing
    /// its path. The target holds the resolved URL, and the path as it was
    /// asked for. Fails with `InvalidUrl` exactly when the join is rejected.
    pub fn resolve(&self, path: &str) -> (r: Result<Target, ApiError>)
        ensures
            match r {
                Ok(target) => url_join(self.base(), relative(path@)) matches Some(parts)
                    && parts.0 == target.url@ && target.path@ == path@,
                Err(e) => url_join(self.base(), relative(path@)) is None && e is InvalidUrl,
            },
    {
        let n = path.unicode_len();
        let reference = if n > 0 && path.get_char(0) == '/' {
            path.substring_char(1, n)
        } else {
            path
        };
        proof {
            if n > 0 && path@[0] == '/' {
                assert(path@.drop_first() =~= path@.subrange(1, n as int));
            }
        }
        match join_url(self.base_url.as_str(), reference) {
            Ok(parts) => Ok(Target { url: parts.href, path: String::from_str(path) }),
            Err(e) => Err(ApiError::InvalidUrl(e)),
        }
    }

    /// Takes in one response: the quota record is updated from its headers
    /// whatever the status, and the response is classified. Returns the
    /// classification and whether quota usage now stands above 80%.
    pub fn handle_response(&mut self, head: &ResponseHead, target: &Target, body: Option<String>) -> (r:
        (Result<(), ApiError>, bool))
        ensures
            final(self).quota() == updated(old(self).quota(), head.rate_limit),
            final(self).base() == old(self).base(),
            final(self).credentials() == old(self).credentials(),
            final(self).retry() == old(self).retry(),
            r.1 == usage_high(final(self).quota()),
            match classified(*head, target.path@, body) {
                None => r.0 is Ok,
                Some(failure) => r.0 matches Err(e) && e@ == failure,
            },
    {
        let warn = self.rate_limiter.update_from_response(&head.rate_limit);
        let class = classify_response(head, target.path.as_str(), body);
        (class, warn)
    }

    /// Concludes one attempt and says what it calls for.
    ///
    /// Where a response came, the quota record is updated from it whatever
    /// its status, and the attempt ends as [`attempt_outcome`] says; where
    /// the transport failed, the attempt ends in that failure and the record
    /// stays as it was. The outcome then goes to the retry state, which
    /// returns it or calls for another attempt, as
    /// [`RetryState::on_outcome`] describes. The second result says whether
    /// a response came and quota usage now stands above 80%.
    pub fn conclude_attempt<T>(
        &mut self,
        retry: &mut RetryState,
        target: &Target,
        exchange: Result<Exchange<T>, ApiError>,
    ) -> (r: (Verdict<T>, bool))
        ensures
            final(self).base() == old(self).base(),
            final(self).credentials() == old(self).credentials(),
            final(self).retry() == old(self).retry(),
            final(self).quota() == match exchange {
                Ok(x) => updated(old(self).quota(), x.head.rate_limit),
                Err(_) => old(self).quota(),
            },
            r.1 == (exchange is Ok && usage_high(final(self).quota())),
            final(retry).made() == counted(old(retry).made()),
            final(retry).ceiling() == old(retry).ceiling(),
            exists|outcome: Result<T, ApiError>| #[trigger]
                verdict_follows(
                    exchange,
                    target.path@,
                    outcome,
                    final(retry).made(),
                    final(retry).ceiling(),
                    r.0,
                ),
    {
        let (outcome, warn) = match exchange {
            Ok(x) => {
                let (class, warn) = self.handle_response(&x.head, target, x.body);
                let outcome = match class {
                    Err(e) => Err(e),
                    Ok(()) => match x.decoded {
                        Some(Ok(value)) => Ok(value),
                        Some(Err(reason)) => Err(ApiError::InvalidResponse(reason)),
                        None => Err(
                            ApiError::InvalidResponse(
                                String::from_str("Response body was not decoded"),
                            ),
                        ),
                    },
                };
                (outcome, warn)
            },
            Err(e) => (Err(e), false),
        };
        let ghost ended = outcome;
        let verdict = retry.on_outcome(outcome);
        let r = (verdict, warn);
        proof {
            assert(verdict_follows(
                exchange,
                target.path@,
                ended,
                retry.made(),
                retry.ceiling(),
                r.0,
            ));
        }
        r
    }

    /// Carries out one request from start to end.
    ///
    /// If the quota is used up and its reset lies ahead, `pause` is called
    /// with the wait before anything else. The path is then resolved against
    /// the base URL; a path that cannot be resolved fails with `InvalidUrl`
    /// and nothing is sent. Otherwise `exchange` is called with the target
    /// and the credentials, once per attempt; every response updates the
    /// quota record; and before each further attempt the schedule is asked
    /// for a wait through `next_wait`, and `pause` is called with it.
    ///
    /// The result is the outcome of the last attempt. Only where the
    /// schedule answers that it has run out before the ceiling is reached,
    /// it is `Timeout` with the number of attempts made.
    pub fn request<T, F, W, S>(
        &mut self,
        path: &str,
        exchange: F,
        next_wait: W,
        pause: S,
    ) -> (r: Result<T, ApiError>) where
        F: Fn(&Target, &Option<AuthMethod>) -> Result<Exchange<T>, ApiError>,
        W: Fn() -> Option<Duration>,
        S: Fn(Pause) -> (),

        requires
            forall|target: &Target, auth: &Option<AuthMethod>|
                call_requires(exchange, (target, auth)),
            call_requires(next_wait, ()),
            forall|p: Pause| call_requires(pause, (p,)),
        ensures
            final(self).base() == old(self).base(),
            final(self).credentials() == old(self).credentials(),
            final(self).retry() == old(self).retry(),
            match url_join(old(self).base(), relative(path@)) {
                None => r matches Err(e) && e is InvalidUrl && final(self).quota() == old(
                    self,
                ).quota(),
                Some(parts) => exists|
                    target: Target,
                    exchanges: Seq<Result<Exchange<T>, ApiError>>,
                    outcomes: Seq<Result<T, ApiError>>,
                |
                    {
                        &&& target.url@ == parts.0
                        &&& target.path@ == path@
                        &&& #[trigger] exchanged(
                            exchange,
                            target,
                            old(self).credentials(),
                            exchanges,
                            outcomes,
                            old(self).retry().max_retries,
                        )
                        &&& concluded(next_wait, outcomes, old(self).retry().max_retries, r)
                        &&& final(self).quota() == quota_after(old(self).quota(), exchanges)
                    },
            },
    {
        match self.wait_before_request() {
            Some(seconds) => {
                pause(Pause::RateLimit { seconds });
            },
            None => {},
        }
        let target = match self.resolve(path) {
            Ok(target) => target,
            Err(e) => {
                return Err(e);
            },
        };
        let config = self.retry_config;
        let mut state = RetryState::new(&config);
        let ghost mut exchanges: Seq<Result<Exchange<T>, ApiError>> = Seq::empty();
        let ghost mut outcomes: Seq<Result<T, ApiError>> = Seq::empty();
        loop
            invariant
                forall|target: &Target, auth: &Option<AuthMethod>|
                    call_requires(exchange, (target, auth)),
                call_requires(next_wait, ()),
                forall|p: Pause| call_requires(pause, (p,)),
                self.base() == old(self).base(),
                self.credentials() == old(self).credentials(),
                self.retry() == old(self).retry(),
                config == self.retry(),
                url_join(old(self).base(), relative(path@)) matches Some(parts) && parts.0
                    == target.url@,
                target.path@ == path@,
                state.ceiling() == config.max_retries,
                state.made() < config.max_retries || state.made() == 0,
                state.made() == exchanges.len(),
                outcomes.len() == exchanges.len(),
                self.quota() == quota_after(old(self).quota(), exchanges),
                forall|i: int|
                    0 <= i < exchanges.len() ==> call_ensures(
                        exchange,
                        (&target, &old(self).credentials()),
                        #[trigger] exchanges[i],
                    ),
                forall|i: int|
                    0 <= i < exchanges.len() ==> #[trigger] attempt_ended(
                        exchanges[i],
                        target.path@,
                        outcomes[i],
                    ),
                forall|i: int|
                    0 <= i < outcomes.len() ==> retries(
                        #[trigger] outcomes[i],
                        (i + 1) as usize,
                        config.max_retries,
                    ),
            decreases config.max_retries - state.made(),
        {
            let x = exchange(&target, &self.auth);
            let ghost before = exchanges;
            let (verdict, _) = self.conclude_attempt(&mut state, &target, x);
            let ghost outcome = choose|outcome: Result<T, ApiError>| #[trigger]
                verdict_follows(x, target.path@, outcome, state.made(), state.ceiling(), verdict);
            proof {
                exchanges = exchanges.push(x);
                outcomes = outcomes.push(outcome);
                assert(exchanges.drop_last() =~= before);
            }
            let step: RetryStep<T> = match verdict {
                Verdict::Done(result) => RetryStep::Done(result),
                Verdict::Retry(_) => state.after_backoff(next_wait()),
            };
            match step {
                RetryStep::Done(result) => {
                    proof {
                        assert(exchanged(
                            exchange,
                            target,
                            old(self).credentials(),
                            exchanges,
                            outcomes,
                            config.max_retries,
                        ));
                        assert(concluded(next_wait, outcomes, config.max_retries, result));
                    }
                    return result;
                },
                RetryStep::Wait(wait) => {
                    pause(Pause::Backoff(wait));
                },
            }
        }
    }
}

} // verus!
