//! How GitHub API failures are read: rate limits from the status, headers
//! and body of a response, the error reported for a failed call, the delay
//! before a retry, release summaries and conditional-request headers.
use vstd::prelude::*;

use crate::error::ApiError;
use crate::text::{chars_of, contains_chars, contains_seq, int_decimal, lower_chars, lower_seq,
    owned, parse_i64, parse_i64_spec, parse_u64, parse_u64_spec, push_str, str_eq, trim_chars,
    trim_seq, string_of, u64_to_string};

verus! {

/// The body text GitHub uses for secondary rate limits.
pub const GITHUB_SECONDARY_RATE_LIMIT_MARKER: &'static str = "secondary rate limit";

/// The delay before retrying after a secondary rate limit.
pub const SECONDARY_RATE_LIMIT_DEFAULT_BACKOFF_SECS: u64 = 2;

pub const HTTP_FORBIDDEN: u16 = 403;
pub const HTTP_TOO_MANY_REQUESTS: u16 = 429;

/// The rate-limit headers of a response, as text.
#[derive(Debug, Clone)]
pub struct RateLimitHeaders {
    pub remaining: Option<String>,
    pub reset: Option<String>,
    pub retry_after: Option<String>,
}

/// A rate limit GitHub reported.
#[derive(Debug, Clone, Copy, PartialEq, Eq)]
pub enum GitHubRateLimitKind {
    /// The hourly quota: when it resets (seconds after the Unix epoch) and
    /// how long to wait, when GitHub said.
    Primary { reset_at: Option<i64>, retry_after_secs: Option<u64> },
    /// An abuse-detection limit.
    Secondary,
}

/// The first instant chrono represents, in seconds after the Unix epoch:
/// 00:00:00 UTC on January 1 of year -262143 (`NaiveDate::MIN`).
pub const CHRONO_MIN_TIMESTAMP: i64 = -8_334_601_228_800;

/// The last instant chrono represents, in seconds after the Unix epoch:
/// 23:59:59 UTC on December 31 of year 262142 (`NaiveDate::MAX`).
pub const CHRONO_MAX_TIMESTAMP: i64 = 8_210_266_876_799;

/// The instants chrono's `DateTime::from_timestamp` can represent.
pub open spec fn chrono_timestamp_ok(secs: int) -> bool {
    CHRONO_MIN_TIMESTAMP <= secs <= CHRONO_MAX_TIMESTAMP
}

/// `DateTime::from_timestamp(secs, 0).is_some()` (chrono): whether the
/// instant is representable. It is exactly when the day falls between
/// chrono's first and last dates.
#[verifier::external_body]
pub(crate) fn timestamp_representable(secs: i64) -> (r: bool)
    ensures
        r == chrono_timestamp_ok(secs as int),
{
    chrono::DateTime::from_timestamp(secs, 0).is_some()
}

/// The RFC 3339 text chrono writes for an instant in UTC.
pub uninterp spec fn rfc3339_text(secs: int) -> Seq<char>;

/// `DateTime::from_timestamp(secs, 0)` then `to_rfc3339` (chrono).
#[verifier::external_body]
fn rfc3339_utc(secs: i64) -> (r: String)
    requires
        chrono_timestamp_ok(secs as int),
    ensures
        r@ == rfc3339_text(secs as int),
{
    chrono::DateTime::from_timestamp(secs, 0).map(|d| d.to_rfc3339()).unwrap_or_default()
}

pub open spec fn opt_view(o: Option<String>) -> Option<Seq<char>> {
    match o {
        Some(s) => Some(s@),
        None => None,
    }
}

/// The reset instant in a header: an `i64` that chrono can represent.
pub open spec fn reset_spec(reset: Option<Seq<char>>) -> Option<i64> {
    match reset {
        Some(t) => match parse_i64_spec(t) {
            Some(v) => if chrono_timestamp_ok(v) {
                Some(v as i64)
            } else {
                None
            },
            None => None,
        },
        None => None,
    }
}

/// The wait in a `retry-after` header: a `u64` number of seconds.
pub open spec fn retry_spec(retry: Option<Seq<char>>) -> Option<u64> {
    match retry {
        Some(t) => match parse_u64_spec(t) {
            Some(v) => Some(v as u64),
            None => None,
        },
        None => None,
    }
}

/// Only a 403 or a 429 is a rate limit: secondary when the body mentions a
/// secondary rate limit (in any ASCII case), primary when no quota remains
/// or the status is 429.
pub open spec fn classify_spec(
    status: u16,
    remaining: Option<Seq<char>>,
    reset: Option<Seq<char>>,
    retry_after: Option<Seq<char>>,
    body: Seq<char>,
) -> Option<GitHubRateLimitKind> {
    if status != HTTP_FORBIDDEN && status != HTTP_TOO_MANY_REQUESTS {
        None
    } else if contains_seq(lower_seq(body), GITHUB_SECONDARY_RATE_LIMIT_MARKER@) {
        Some(GitHubRateLimitKind::Secondary)
    } else if remaining == Some("0"@) || status == HTTP_TOO_MANY_REQUESTS {
        Some(
            GitHubRateLimitKind::Primary {
                reset_at: reset_spec(reset),
                retry_after_secs: retry_spec(retry_after),
            },
        )
    } else {
        None
    }
}

fn reset_from(reset: &Option<String>) -> (r: Option<i64>)
    ensures
        r == reset_spec(opt_view(*reset)),
{
    match reset {
        Some(t) => match parse_i64(chars_of(t.as_str()).as_slice()) {
            Some(v) => if timestamp_representable(v) {
                Some(v)
            } else {
                None
            },
            None => None,
        },
        None => None,
    }
}

fn retry_from(retry: &Option<String>) -> (r: Option<u64>)
    ensures
        r == retry_spec(opt_view(*retry)),
{
    match retry {
        Some(t) => parse_u64(chars_of(t.as_str()).as_slice()),
        None => None,
    }
}

/// Which rate limit, if any, a response reports.
pub fn classify_rate_limit(status: u16, headers: &RateLimitHeaders, body: &str) -> (r: Option<
    GitHubRateLimitKind,
>)
    ensures
        r == classify_spec(
            status,
            opt_view(headers.remaining),
            opt_view(headers.reset),
            opt_view(headers.retry_after),
            body@,
        ),
{
    if status != HTTP_FORBIDDEN && status != HTTP_TOO_MANY_REQUESTS {
        return None;
    }
    let lowered = lower_chars(chars_of(body).as_slice());
    if contains_chars(lowered.as_slice(), chars_of(GITHUB_SECONDARY_RATE_LIMIT_MARKER).as_slice()) {
        return Some(GitHubRateLimitKind::Secondary);
    }
    let exhausted = match &headers.remaining {
        Some(v) => str_eq(v.as_str(), "0"),
        None => false,
    };
    if exhausted || status == HTTP_TOO_MANY_REQUESTS {
        return Some(
            GitHubRateLimitKind::Primary {
                reset_at: reset_from(&headers.reset),
                retry_after_secs: retry_from(&headers.retry_after),
            },
        );
    }
    None
}

/// Every reset instant a classification gives is representable.
pub open spec fn kind_well_formed(kind: GitHubRateLimitKind) -> bool {
    match kind {
        GitHubRateLimitKind::Primary { reset_at: Some(r), .. } => chrono_timestamp_ok(r as int),
        _ => true,
    }
}

/// The message of a rate limit.
pub open spec fn rate_limit_message_spec(kind: GitHubRateLimitKind) -> Seq<char> {
    match kind {
        GitHubRateLimitKind::Primary { reset_at, retry_after_secs } => {
            let base = "GitHub API primary rate limit reached"@;
            let with_reset = match reset_at {
                Some(r) => base + "; resets at "@ + rfc3339_text(r as int),
                None => base,
            };
            match retry_after_secs {
                Some(s) => with_reset + "; retry after "@ + int_decimal(s as int) + " seconds"@,
                None => with_reset,
            }
        },
        GitHubRateLimitKind::Secondary => "GitHub API secondary rate limit reached; retry after a short backoff"@,
    }
}

fn github_rate_limit_message(kind: &GitHubRateLimitKind) -> (r: String)
    requires
        kind_well_formed(*kind),
    ensures
        r@ == rate_limit_message_spec(*kind),
{
    match kind {
        GitHubRateLimitKind::Primary { reset_at, retry_after_secs } => {
            let mut message = owned("GitHub API primary rate limit reached");
            if let Some(r) = reset_at {
                push_str(&mut message, "; resets at ");
                let t = rfc3339_utc(*r);
                push_str(&mut message, t.as_str());
            }
            if let Some(s) = retry_after_secs {
                push_str(&mut message, "; retry after ");
                let d = u64_to_string(*s);
                push_str(&mut message, d.as_str());
                push_str(&mut message, " seconds");
            }
            message
        },
        GitHubRateLimitKind::Secondary => owned(
            "GitHub API secondary rate limit reached; retry after a short backoff",
        ),
    }
}

/// How long to wait before retrying: the `retry-after` of a primary limit,
/// two seconds for a secondary limit, no retry otherwise.
pub fn retry_delay(limit: &Option<GitHubRateLimitKind>) -> (r: Option<u64>)
    ensures
        r == (match *limit {
            Some(GitHubRateLimitKind::Primary { retry_after_secs: Some(s), .. }) => Some(s),
            Some(GitHubRateLimitKind::Secondary) => Some(SECONDARY_RATE_LIMIT_DEFAULT_BACKOFF_SECS),
            _ => None,
        }),
{
    match limit {
        Some(GitHubRateLimitKind::Primary { retry_after_secs: Some(s), .. }) => Some(*s),
        Some(GitHubRateLimitKind::Secondary) => Some(SECONDARY_RATE_LIMIT_DEFAULT_BACKOFF_SECS),
        _ => None,
    }
}


/// The error for a failed GitHub call: a rate limit is forbidden, with the
/// context and the limit's message; otherwise a 403 or 429 is forbidden and
/// any other status internal, with the context, the status and GitHub's
/// message.
pub open spec fn api_failure_spec(
    context: Seq<char>,
    status: u16,
    remaining: Option<Seq<char>>,
    reset: Option<Seq<char>>,
    retry_after: Option<Seq<char>>,
    message: Seq<char>,
) -> (u16, Seq<char>) {
    match classify_spec(status, remaining, reset, retry_after, message) {
        Some(kind) => (crate::error::STATUS_FORBIDDEN, context + ": "@ + rate_limit_message_spec(kind)),
        None => if status == HTTP_FORBIDDEN {
            (crate::error::STATUS_FORBIDDEN, context + ": GitHub returned 403 ("@ + message + ")"@)
        } else if status == HTTP_TOO_MANY_REQUESTS {
            (crate::error::STATUS_FORBIDDEN, context + ": GitHub returned 429 ("@ + message + ")"@)
        } else {
            (
                crate::error::STATUS_INTERNAL,
                context + ": GitHub returned "@ + int_decimal(status as int) + " ("@ + message
                    + ")"@,
            )
        },
    }
}

/// The error for a failed GitHub call, reading its rate-limit headers.
pub fn github_api_failure_with_headers(
    context: &str,
    status: u16,
    headers: &RateLimitHeaders,
    message: &str,
) -> (r: ApiError)
    ensures
        (r.status, r.message@) == api_failure_spec(
            context@,
            status,
            opt_view(headers.remaining),
            opt_view(headers.reset),
            opt_view(headers.retry_after),
            message@,
        ),
{
    if let Some(kind) = classify_rate_limit(status, headers, message) {
        let mut m = owned(context);
        push_str(&mut m, ": ");
        let text = github_rate_limit_message(&kind);
        push_str(&mut m, text.as_str());
        return ApiError::forbidden_owned(m);
    }
    let mut m = owned(context);
    if status == HTTP_FORBIDDEN {
        push_str(&mut m, ": GitHub returned 403 (");
        push_str(&mut m, message);
        push_str(&mut m, ")");
        ApiError::forbidden_owned(m)
    } else if status == HTTP_TOO_MANY_REQUESTS {
        push_str(&mut m, ": GitHub returned 429 (");
        push_str(&mut m, message);
        push_str(&mut m, ")");
        ApiError::forbidden_owned(m)
    } else {
        push_str(&mut m, ": GitHub returned ");
        let code = u64_to_string(status as u64);
        push_str(&mut m, code.as_str());
        push_str(&mut m, " (");
        push_str(&mut m, message);
        push_str(&mut m, ")");
        ApiError::internal_owned(m)
    }
}

/// The error for a failed GitHub call without headers.
pub fn github_api_failure(context: &str, status: u16, message: &str) -> (r: ApiError)
    ensures
        (r.status, r.message@) == api_failure_spec(context@, status, None, None, None, message@),
{
    let headers = RateLimitHeaders { remaining: None, reset: None, retry_after: None };
    github_api_failure_with_headers(context, status, &headers, message)
}

/// The latest of the known instants.
pub open spec fn latest(instants: Seq<Option<i64>>) -> Option<i64>
    decreases instants.len(),
{
    if instants.len() == 0 {
        None
    } else {
        let prev = latest(instants.drop_last());
        match instants.last() {
            None => prev,
            Some(t) => match prev {
                Some(p) => if p >= t {
                    Some(p)
                } else {
                    Some(t)
                },
                None => Some(t),
            },
        }
    }
}

/// The number of releases and the latest publication instant among them.
pub fn summarize_releases(published_at: &[Option<i64>]) -> (r: (i32, Option<i64>))
    ensures
        r.0 == published_at@.len() as i32,
        r.1 == latest(published_at@),
{
    let mut last: Option<i64> = None;
    for i in 0..published_at.len()
        invariant
            last == latest(published_at@.take(i as int)),
    {
        proof {
            assert(published_at@.take(i + 1).drop_last() =~= published_at@.take(i as int));
        }
        match published_at[i] {
            Some(t) => {
                last = match last {
                    Some(p) => if p >= t {
                        Some(p)
                    } else {
                        Some(t)
                    },
                    None => Some(t),
                };
            },
            None => {},
        }
    }
    assert(published_at@.take(published_at@.len() as int) =~= published_at@);
    (published_at.len() as i32, last)
}

/// A byte `HeaderValue::from_str` accepts: tab, or visible ASCII, or any
/// byte of a non-ASCII character.
pub open spec fn header_char_ok(c: char) -> bool {
    c == '\t' || (c as u32 >= 32 && c as u32 != 127)
}

/// `HeaderValue::from_str(s).is_ok()` (http): every byte is a tab or at
/// least 32 and not 127, which for UTF-8 text means every character is.
#[verifier::external_body]
fn header_value_valid(s: &str) -> (r: bool)
    ensures
        r == (forall|i: int| 0 <= i < s@.len() ==> header_char_ok(#[trigger] s@[i])),
{
    http::HeaderValue::from_str(s).is_ok()
}

/// The `If-None-Match` value for a stored ETag: the trimmed ETag when it is
/// not blank and is a valid header value.
pub fn conditional_request_headers(etag: Option<&str>) -> (r: Option<String>)
    ensures
        opt_view(r) == (match etag {
            Some(e) => if trim_seq(e@).len() > 0 && (forall|i: int|
                0 <= i < trim_seq(e@).len() ==> header_char_ok(#[trigger] trim_seq(e@)[i])) {
                Some(trim_seq(e@))
            } else {
                None
            },
            None => None,
        }),
{
    let e = match etag {
        Some(e) => e,
        None => {
            return None;
        },
    };
    let t = string_of(trim_chars(chars_of(e).as_slice()).as_slice());
    if t.as_str().is_empty() {
        return None;
    }
    if !header_value_valid(t.as_str()) {
        return None;
    }
    Some(t)
}


/// A failed call that reports a rate limit is always answered as forbidden,
/// and so is any 403 or 429; only other statuses are internal errors.
pub proof fn lemma_rate_limits_are_forbidden(
    context: Seq<char>,
    status: u16,
    remaining: Option<Seq<char>>,
    reset: Option<Seq<char>>,
    retry_after: Option<Seq<char>>,
    message: Seq<char>,
)
    ensures
        (api_failure_spec(context, status, remaining, reset, retry_after, message).0
            == crate::error::STATUS_FORBIDDEN) == (status == HTTP_FORBIDDEN || status
            == HTTP_TOO_MANY_REQUESTS),
        classify_spec(status, remaining, reset, retry_after, message) is Some ==> (status
            == HTTP_FORBIDDEN || status == HTTP_TOO_MANY_REQUESTS),
{
}

/// A 403 or 429 whose body mentions a secondary rate limit is a secondary
/// limit, whatever its headers say.
pub proof fn lemma_secondary_marker_wins(status: u16, remaining: Option<Seq<char>>, reset: Option<Seq<char>>, retry_after: Option<Seq<char>>, body: Seq<char>)
    requires
        status == HTTP_FORBIDDEN || status == HTTP_TOO_MANY_REQUESTS,
        contains_seq(lower_seq(body), GITHUB_SECONDARY_RATE_LIMIT_MARKER@),
    ensures
        classify_spec(status, remaining, reset, retry_after, body) == Some(
            GitHubRateLimitKind::Secondary,
        ),
{
}

/// The longest rate-limit wait a request sits through before giving up.
pub const MAX_INLINE_BACKOFF_SECS: u64 = 2;

pub const HTTP_NOT_MODIFIED: u16 = 304;
pub const HTTP_NOT_FOUND: u16 = 404;

/// The ETag of an unmodified answer: the answer's own, or the one sent;
/// `None` when the answer was modified.
pub fn not_modified_etag(
    status: u16,
    response_etag: Option<String>,
    request_etag: Option<&str>,
) -> (r: Option<Option<String>>)
    ensures
        status != HTTP_NOT_MODIFIED ==> r is None,
        status == HTTP_NOT_MODIFIED ==> (r matches Some(e) && match response_etag {
            Some(x) => e == Some(x),
            None => match request_etag {
                Some(q) => (e matches Some(y) && y@ == q@),
                None => e is None,
            },
        }),
{
    if status != HTTP_NOT_MODIFIED {
        return None;
    }
    match response_etag {
        Some(x) => Some(Some(x)),
        None => match request_etag {
            Some(q) => Some(Some(owned(q))),
            None => Some(None),
        },
    }
}

/// What to do with a modified answer.
#[derive(Debug)]
pub enum ResponseVerdict {
    /// Wait this many seconds and ask again.
    RetryAfter(u64),
    /// Give up with this error.
    Fail(ApiError),
    /// Read the body as JSON.
    Decode,
}

/// A rate-limited answer is retried once, when the wait it asks for is at
/// most two seconds, and fails otherwise; a 404 fails as not found; another
/// unsuccessful status fails as the GitHub failure of that status; a
/// successful one is decoded.
pub fn response_verdict(
    attempts: u32,
    status: u16,
    headers: &RateLimitHeaders,
    body: &str,
    context: &str,
) -> (r: ResponseVerdict)
    ensures
        ({
            let limit = classify_spec(
                status,
                opt_view(headers.remaining),
                opt_view(headers.reset),
                opt_view(headers.retry_after),
                body@,
            );
            let delay: Option<u64> = match limit {
                Some(GitHubRateLimitKind::Primary { retry_after_secs: Some(s), .. }) => Some(s),
                Some(GitHubRateLimitKind::Secondary) => Some(SECONDARY_RATE_LIMIT_DEFAULT_BACKOFF_SECS),
                _ => None,
            };
            let failure = api_failure_spec(
                context@,
                status,
                opt_view(headers.remaining),
                opt_view(headers.reset),
                opt_view(headers.retry_after),
                body@,
            );
            if limit is Some {
                if attempts == 1 && (delay matches Some(d) && d <= MAX_INLINE_BACKOFF_SECS) {
                    r == ResponseVerdict::RetryAfter(delay->0)
                } else {
                    r matches ResponseVerdict::Fail(e) && (e.status, e.message@) == failure
                }
            } else if !(200 <= status < 300) {
                if status == HTTP_NOT_FOUND {
                    r matches ResponseVerdict::Fail(e) && e.status == crate::error::STATUS_NOT_FOUND
                        && e.message@ == context@ + ": GitHub returned 404"@
                } else {
                    r matches ResponseVerdict::Fail(e) && (e.status, e.message@) == failure
                }
            } else {
                r is Decode
            }
        }),
{
    let limit = classify_rate_limit(status, headers, body);
    if limit.is_some() {
        let delay = retry_delay(&limit);
        if attempts == 1 {
            if let Some(d) = delay {
                if d <= MAX_INLINE_BACKOFF_SECS {
                    return ResponseVerdict::RetryAfter(d);
                }
            }
        }
        return ResponseVerdict::Fail(github_api_failure_with_headers(context, status, headers, body));
    }
    if !(200 <= status && status < 300) {
        if status == HTTP_NOT_FOUND {
            let mut m = owned(context);
            push_str(&mut m, ": GitHub returned 404");
            return ResponseVerdict::Fail(ApiError::not_found(m.as_str()));
        }
        return ResponseVerdict::Fail(github_api_failure_with_headers(context, status, headers, body));
    }
    ResponseVerdict::Decode
}

} // verus!
