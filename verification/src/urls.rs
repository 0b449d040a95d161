//! Trusted plain-value wrappers around the `url` crate.
//!
//! URLs travel through the library as their serialized strings; parsing,
//! resolving and path extraction are done by `url::Url` behind these
//! wrappers, whose results are named by uninterpreted functions of the
//! input text alone.

use vstd::prelude::*;

verus! {

/// The serialization of `url::Url::parse(s)`, or `None` when `s` is not an
/// absolute URL.
pub uninterp spec fn url_norm_of(s: Seq<char>) -> Option<Seq<char>>;

/// The serialization of `rel` resolved against `base`, or `None` when the
/// base does not parse or the reference cannot be resolved against it.
pub uninterp spec fn url_join_of(base: Seq<char>, rel: Seq<char>) -> Option<Seq<char>>;

/// The path component of the URL `s`, or `None` when `s` does not parse.
pub uninterp spec fn url_path_of(s: Seq<char>) -> Option<Seq<char>>;

/// Relies on url::Url::parse: `Some` exactly for absolute URLs, carrying
/// the parsed URL's serialization.
#[verifier::external_body]
pub(crate) fn parse_url(s: &str) -> (r: Option<String>)
    ensures
        r.deep_view() == url_norm_of(s@),
{
    url::Url::parse(s).ok().map(String::from)
}

/// Relies on url::Url::join (url::Url::parse converts the base): resolves a
/// possibly-relative reference against a base URL.
#[verifier::external_body]
pub(crate) fn join_url(base: &str, rel: &str) -> (r: Option<String>)
    ensures
        r.deep_view() == url_join_of(base@, rel@),
{
    match url::Url::parse(base) {
        Ok(b) => b.join(rel).ok().map(String::from),
        Err(_) => None,
    }
}

/// Relies on url::Url::path (url::Url::parse converts the input): the path
/// component of a URL.
#[verifier::external_body]
pub(crate) fn url_path(s: &str) -> (r: Option<String>)
    ensures
        r.deep_view() == url_path_of(s@),
{
    url::Url::parse(s).ok().map(|u| u.path().to_string())
}

} // verus!
