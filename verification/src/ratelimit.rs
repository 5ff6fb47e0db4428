//! Tracking of the quota that the server reports in its response headers.
//!
//! The limiter is advisory: it records the latest absolute figures and says
//! how long a caller should wait, but never blocks by itself.

use vstd::prelude::*;
use crate::decimal::{parse_i64, parse_signed, parse_u32, parse_unsigned};

verus! {

/// The quota as last reported: requests left, the size of the window, and
/// the Unix time in seconds at which the window resets.
#[derive(Debug, Clone, Copy, PartialEq, Eq, Structural)]
pub struct RateLimitInfo {
    pub limit: Option<u32>,
    pub remaining: Option<u32>,
    pub reset_at: Option<i64>,
}

/// The text of the three quota headers of one response, where present:
/// `x-ratelimit-limit`, `x-ratelimit-remaining` and `x-ratelimit-reset`.
#[derive(Debug, Clone, PartialEq, Eq)]
pub struct RateLimitHeaders {
    pub limit: Option<String>,
    pub remaining: Option<String>,
    pub reset: Option<String>,
}

/// Whether `chrono` can represent the instant `secs` seconds after the
/// Unix epoch as a date and time.
pub uninterp spec fn representable_timestamp(secs: i64) -> bool;

/// Calls `chrono::DateTime::from_timestamp(secs, 0)` and reports whether it
/// produced a date and time. The answer depends on `secs` alone and is given
/// the name [`representable_timestamp`]; nothing more is claimed about it.
#[verifier::external_body]
fn timestamp_is_representable(secs: i64) -> (r: bool)
    ensures
        r == representable_timestamp(secs),
{
    chrono::DateTime::from_timestamp(secs, 0).is_some()
}

/// Reads the clock through `chrono::Utc::now`: whole seconds since the Unix
/// epoch (`DateTime::timestamp`) and the nanoseconds of the second under way
/// (`DateTime::timestamp_subsec_nanos`). Nothing is claimed about the
/// reading. `Utc::now` does not return on a machine whose clock stands
/// before the epoch.
#[verifier::external_body]
fn utc_now() -> (r: (i64, u32)) {
    let now = chrono::Utc::now();
    (now.timestamp(), now.timestamp_subsec_nanos())
}

/// The count that a header carries, if it is there and is a decimal `u32`.
pub open spec fn header_count(header: Option<String>) -> Option<u32> {
    match header {
        Some(text) => match parse_unsigned(text@, u32::MAX as int) {
            Some(v) => Some(v as u32),
            None => None,
        },
        None => None,
    }
}

/// The reset time that a header carries, if it is there, is a decimal
/// `i64` and names a representable instant.
pub open spec fn header_reset(header: Option<String>) -> Option<i64> {
    match header {
        Some(text) => match parse_signed(text@, i64::MIN as int, i64::MAX as int) {
            Some(v) => if representable_timestamp(v as i64) {
                Some(v as i64)
            } else {
                None
            },
            None => None,
        },
        None => None,
    }
}

/// `fresh` where the response supplied a value, else what was known before.
pub open spec fn latest<A>(fresh: Option<A>, before: Option<A>) -> Option<A> {
    if fresh is Some {
        fresh
    } else {
        before
    }
}

/// The record after a response with the given headers: each field is
/// overwritten by its own header when that header is usable, and is left
/// alone otherwise.
pub open spec fn updated(before: RateLimitInfo, headers: RateLimitHeaders) -> RateLimitInfo {
    RateLimitInfo {
        limit: latest(header_count(headers.limit), before.limit),
        remaining: latest(header_count(headers.remaining), before.remaining),
        reset_at: latest(header_reset(headers.reset), before.reset_at),
    }
}

/// More than 80% of the window is used up.
pub open spec fn usage_high(info: RateLimitInfo) -> bool {
    match (info.remaining, info.limit) {
        (Some(remaining), Some(limit)) => 5 * (limit - remaining) > 4 * limit,
        _ => false,
    }
}

/// One second, in nanoseconds.
pub open spec fn second() -> int {
    1_000_000_000
}

/// The whole seconds to wait at the instant `now_secs` seconds and
/// `now_nanos` nanoseconds after the epoch: the time left until the reset,
/// any fraction dropped, when nothing remains and the reset is strictly
/// ahead; otherwise no wait.
pub open spec fn wait_at(info: RateLimitInfo, now_secs: i64, now_nanos: u32) -> Option<u64> {
    match (info.remaining, info.reset_at) {
        (Some(remaining), Some(reset)) => {
            let left = (reset - now_secs) * second() - now_nanos;
            if remaining == 0 && left > 0 {
                Some((left / second()) as u64)
            } else {
                None
            }
        },
        _ => None,
    }
}

/// The quota record of one executor.
pub struct RateLimiter {
    state: RateLimitInfo,
}

impl View for RateLimiter {
    type V = RateLimitInfo;

    closed spec fn view(&self) -> RateLimitInfo {
        self.state
    }
}

fn read_count(header: &Option<String>) -> (r: Option<u32>)
    ensures
        r == header_count(*header),
{
    match header {
        Some(text) => parse_u32(text.as_str()),
        None => None,
    }
}

fn read_reset(header: &Option<String>) -> (r: Option<i64>)
    ensures
        r == header_reset(*header),
{
    match header {
        Some(text) => match parse_i64(text.as_str()) {
            Some(secs) => if timestamp_is_representable(secs) {
                Some(secs)
            } else {
                None
            },
            None => None,
        },
        None => None,
    }
}

impl RateLimiter {
    /// A limiter that knows nothing yet.
    pub fn new() -> (r: Self)
        ensures
            r@ == (RateLimitInfo { limit: None, remaining: None, reset_at: None }),
    {
        RateLimiter { state: RateLimitInfo { limit: None, remaining: None, reset_at: None } }
    }

    /// Records what a response says about the quota. A header that is
    /// missing or does not parse leaves its field as it was. Returns whether
    /// usage now stands above 80%, which callers report as a warning.
    pub fn update_from_response(&mut self, headers: &RateLimitHeaders) -> (warn: bool)
        ensures
            final(self)@ == updated(old(self)@, *headers),
            warn == usage_high(final(self)@),
    {
        if let Some(limit) = read_count(&headers.limit) {
            self.state.limit = Some(limit);
        }
        if let Some(remaining) = read_count(&headers.remaining) {
            self.state.remaining = Some(remaining);
        }
        if let Some(reset) = read_reset(&headers.reset) {
            self.state.reset_at = Some(reset);
        }
        match (self.state.remaining, self.state.limit) {
            (Some(remaining), Some(limit)) => {
                if remaining > limit {
                    false
                } else {
                    let used: u64 = (limit - remaining) as u64;
                    5 * used > 4 * (limit as u64)
                }
            },
            _ => false,
        }
    }

    /// The wait that the record calls for at a given instant.
    pub fn check_limit_at(&self, now_secs: i64, now_nanos: u32) -> (r: Option<u64>)
        ensures
            r == wait_at(self@, now_secs, now_nanos),
    {
        match (self.state.remaining, self.state.reset_at) {
            (Some(remaining), Some(reset)) => {
                if remaining != 0 || reset <= now_secs {
                    return None;
                }
                let ahead: i128 = reset as i128 - now_secs as i128;
                let left: i128 = ahead * 1_000_000_000 - now_nanos as i128;
                if left > 0 {
                    Some((left / 1_000_000_000) as u64)
                } else {
                    None
                }
            },
            _ => None,
        }
    }

    /// The wait that the record calls for now. The clock is read once; the
    /// result is what [`check_limit_at`](Self::check_limit_at) gives for
    /// that reading.
    pub fn check_limit(&self) -> (r: Option<u64>)
        ensures
            exists|secs: i64, nanos: u32| r == wait_at(self@, secs, nanos),
            r is Some ==> self@.remaining == Some(0u32) && self@.reset_at is Some,
    {
        let (secs, nanos) = utc_now();
        self.check_limit_at(secs, nanos)
    }

    /// A copy of the record.
    pub fn get_info(&self) -> (r: RateLimitInfo)
        ensures
            r == self@,
    {
        self.state
    }
}

impl Default for RateLimiter {
    fn default() -> (r: Self)
        ensures
            r@ == (RateLimitInfo { limit: None, remaining: None, reset_at: None }),
    {
        RateLimiter::new()
    }
}

/// A header that does not come leaves its field alone: a response with
/// only the limit keeps `remaining` and `reset_at`, and likewise for the
/// other two.
pub proof fn lemma_update_keeps_what_is_not_sent(before: RateLimitInfo, headers: RateLimitHeaders)
    ensures
        headers.limit is None ==> updated(before, headers).limit == before.limit,
        headers.remaining is None ==> updated(before, headers).remaining == before.remaining,
        headers.reset is None ==> updated(before, headers).reset_at == before.reset_at,
{
}

/// The record holds the latest figures, never a sum: a usable header
/// replaces its field whatever stood there.
pub proof fn lemma_update_overwrites(
    first: RateLimitInfo,
    second: RateLimitInfo,
    headers: RateLimitHeaders,
)
    ensures
        header_count(headers.limit) is Some ==> updated(first, headers).limit == updated(
            second,
            headers,
        ).limit,
        header_count(headers.remaining) is Some ==> updated(first, headers).remaining == updated(
            second,
            headers,
        ).remaining,
        header_reset(headers.reset) is Some ==> updated(first, headers).reset_at == updated(
            second,
            headers,
        ).reset_at,
{
}

/// A wait is due exactly when nothing remains and the reset lies strictly
/// ahead.
pub proof fn lemma_wait_exactly_when_exhausted(info: RateLimitInfo, now_secs: i64, now_nanos: u32)
    ensures
        wait_at(info, now_secs, now_nanos) is Some <==> info.remaining == Some(0u32)
            && info.reset_at is Some && info.reset_at->0 * second() > now_secs * second()
            + now_nanos,
{
    match (info.remaining, info.reset_at) {
        (Some(remaining), Some(reset)) => {
            assert((reset - now_secs) * second() == reset * second() - now_secs * second())
                by (nonlinear_arith);
        },
        _ => {},
    }
}

/// With nothing remaining and the reset some whole seconds after the
/// second under way, the wait is that many seconds or one less.
pub proof fn lemma_wait_within_a_second(info: RateLimitInfo, now_secs: i64, now_nanos: u32)
    requires
        info.remaining == Some(0u32),
        info.reset_at is Some,
        info.reset_at->0 > now_secs,
        now_nanos < second(),
    ensures
        wait_at(info, now_secs, now_nanos) matches Some(wait) && info.reset_at->0 - now_secs - 1
            <= wait <= info.reset_at->0 - now_secs,
        now_nanos == 0 ==> wait_at(info, now_secs, now_nanos) == Some(
            (info.reset_at->0 - now_secs) as u64,
        ),
{
    let ahead = info.reset_at->0 - now_secs;
    let left = ahead * second() - now_nanos;
    assert(left > 0 && (ahead - 1) * second() <= left <= ahead * second()) by (nonlinear_arith)
        requires
            ahead >= 1,
            0 <= now_nanos < second(),
            left == ahead * second() - now_nanos,
            second() == 1_000_000_000,
    ;
    assert(ahead - 1 <= left / second() <= ahead) by (nonlinear_arith)
        requires
            (ahead - 1) * second() <= left <= ahead * second(),
            second() == 1_000_000_000,
    ;
    if now_nanos == 0 {
        assert(left / second() == ahead) by (nonlinear_arith)
            requires
                left == ahead * second(),
                second() == 1_000_000_000,
        ;
    }
}

/// Without a reset time, or with requests remaining, no wait is due.
pub proof fn lemma_no_wait(info: RateLimitInfo, now_secs: i64, now_nanos: u32)
    requires
        info.reset_at is None || info.remaining != Some(0u32),
    ensures
        wait_at(info, now_secs, now_nanos) is None,
{
}

} // verus!
