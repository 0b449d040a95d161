//! The decision logic of the fetch layer.
//!
//! The HTTP client itself lives outside the library; here stand the parts
//! that can be pinned down exactly: URL validation with scheme gating, the
//! classification of errors into retryable and terminal ones, the
//! exponential backoff schedule, and the status-code policy.

use vstd::prelude::*;

use crate::scan::CharClass;
use crate::scan::run_end;
use crate::scan::scan_while;
use crate::scan::take_range;
use crate::scan::to_chars;
use crate::urls::url_norm_of;

verus! {

/// A failure of the fetch layer.
#[derive(Debug, Clone)]
pub enum FetchError {
    /// The input URL is syntactically invalid.
    UrlParse,
    /// The URL's scheme is not `http` or `https`.
    UnsupportedScheme(String),
    /// A transport-level failure; retryable.
    Network(String),
    /// A non-2xx response; terminal for that URL.
    HttpStatus(u16),
    /// The request deadline elapsed; retryable.
    Timeout,
}

/// The scheme of a serialized URL: its characters before the first `:`.
pub open spec fn scheme_of(u: Seq<char>) -> Seq<char> {
    u.subrange(0, run_end(u, 0, CharClass::NonColon))
}

/// Whether a scheme is accepted for network fetches.
pub open spec fn scheme_allowed(sch: Seq<char>) -> bool {
    sch == "http"@ || sch == "https"@
}

/// Validate and parse a URL string: the normalized URL when it parses and
/// its scheme is `http` or `https`, and the exact error otherwise.
#[verifier::loop_isolation(false)]
pub fn validate_url(input: &str) -> (r: Result<String, FetchError>)
    ensures
        match r {
            Ok(u) => url_norm_of(input@) == Some(u@) && scheme_allowed(scheme_of(u@)),
            Err(e) => match e {
                FetchError::UrlParse => url_norm_of(input@) is None,
                FetchError::UnsupportedScheme(sch) => {
                    &&& url_norm_of(input@) matches Some(u)
                    &&& sch@ == scheme_of(u)
                    &&& !scheme_allowed(sch@)
                },
                _ => false,
            },
        },
{
    let normalized = match crate::urls::parse_url(input) {
        Some(u) => u,
        None => {
            return Err(FetchError::UrlParse);
        },
    };
    let cs = to_chars(normalized.as_str());
    let c = scan_while(&cs, 0, CharClass::NonColon);
    let sch = take_range(normalized.as_str(), 0, c);
    let http: String = "http".to_owned();
    let https: String = "https".to_owned();
    if sch == http || sch == https {
        Ok(normalized)
    } else {
        Err(FetchError::UnsupportedScheme(sch))
    }
}

/// Whether a fetch failure may be retried: only transport errors and
/// timeouts are; HTTP status failures are terminal.
pub fn is_retryable(e: &FetchError) -> (r: bool)
    ensures
        r == (e matches FetchError::Network(_) || e matches FetchError::Timeout),
{
    match e {
        FetchError::Network(_) => true,
        FetchError::Timeout => true,
        _ => false,
    }
}

/// The backoff before the first retry, in milliseconds.
pub fn initial_backoff_ms() -> (r: u64)
    ensures
        r == 200,
{
    200
}

/// The backoff doubles after every retry, saturating instead of
/// overflowing.
pub fn next_backoff_ms(ms: u64) -> (r: u64)
    ensures
        r == if ms <= u64::MAX / 2 {
            2 * ms as int
        } else {
            u64::MAX as int
        },
{
    if ms <= u64::MAX / 2 {
        2 * ms
    } else {
        u64::MAX
    }
}

/// Whether an HTTP status code counts as success.
pub fn status_is_success(code: u16) -> (r: bool)
    ensures
        r == (200 <= code < 300),
{
    200 <= code && code < 300
}

/// Whether a HEAD request must be retried as GET (method not allowed).
pub fn status_needs_get_fallback(code: u16) -> (r: bool)
    ensures
        r == (code == 405),
{
    code == 405
}

/// The error reported after all attempts failed: the last transport error,
/// or a timeout when no attempt produced one.
pub fn exhausted_error(last: Option<FetchError>) -> (r: FetchError)
    ensures
        match last {
            Some(e) => r == e,
            None => r matches FetchError::Timeout,
        },
{
    match last {
        Some(e) => e,
        None => FetchError::Timeout,
    }
}

} // verus!
