//! The data model of the download manager.
//!
//! The worker pool itself runs outside the library; here stand its
//! configuration, the per-URL result record whose invariant says that
//! exactly one of content and error is populated, and the validation-pass
//! filter that keeps the URLs whose probe came back with a 2xx status.

use vstd::prelude::*;

use crate::fetch::FetchError;

verus! {

/// Download manager configuration.
pub struct DownloadManagerConfig {
    pub concurrency: usize,
    pub retry_attempts: usize,
}

impl Default for DownloadManagerConfig {
    /// Eight workers, three attempts per URL.
    fn default() -> (r: Self)
        ensures
            r.concurrency == 8,
            r.retry_attempts == 3,
    {
        DownloadManagerConfig { concurrency: 8, retry_attempts: 3 }
    }
}

/// Result of a download attempt: exactly one of `content` and `error` is
/// populated.
pub struct DownloadResult {
    pub url: String,
    pub content: Option<String>,
    pub error: Option<FetchError>,
}

impl DownloadResult {
    /// Exactly one of the two outcome fields is populated.
    pub open spec fn wf(self) -> bool {
        self.content is Some <==> self.error is None
    }

    /// The record of a download that produced a body.
    pub fn success(url: String, body: String) -> (r: DownloadResult)
        ensures
            r.wf(),
            r.url@ == url@,
            r.content matches Some(b) && b@ == body@,
            r.error is None,
    {
        DownloadResult { url, content: Some(body), error: None }
    }

    /// The record of a download that failed.
    pub fn failure(url: String, error: FetchError) -> (r: DownloadResult)
        ensures
            r.wf(),
            r.url@ == url@,
            r.content is None,
            r.error == Some(error),
    {
        DownloadResult { url, content: None, error: Some(error) }
    }
}

/// The outcome of probing one candidate URL with a HEAD request: the
/// response status, or `None` when no response came back.
pub struct HeadProbe {
    pub url: String,
    pub status: Option<u16>,
}

/// The URLs whose probe succeeded with a 2xx status, from index `i` on.
pub open spec fn live_urls_from(ps: Seq<HeadProbe>, i: int) -> Seq<Seq<char>>
    decreases ps.len() - i,
{
    if i < 0 || i >= ps.len() {
        Seq::empty()
    } else {
        match ps[i].status {
            Some(c) => if 200 <= c < 300 {
                seq![ps[i].url@] + live_urls_from(ps, i + 1)
            } else {
                live_urls_from(ps, i + 1)
            },
            None => live_urls_from(ps, i + 1),
        }
    }
}

/// The URLs of the probes that came back with a 2xx status, in probe
/// order.
pub open spec fn live_urls(ps: Seq<HeadProbe>) -> Seq<Seq<char>> {
    live_urls_from(ps, 0)
}

/// Keep the candidate URLs whose validation probe returned a 2xx status.
#[verifier::loop_isolation(false)]
pub fn filter_live_urls(probes: &Vec<HeadProbe>) -> (r: Vec<String>)
    ensures
        r.deep_view() == live_urls(probes@),
{
    let mut out: Vec<String> = Vec::new();
    proof {
        assert(out.deep_view() =~= Seq::<Seq<char>>::empty());
    }
    let mut i: usize = 0;
    while i < probes.len()
        invariant
            0 <= i <= probes@.len(),
            out.deep_view() + live_urls_from(probes@, i as int) == live_urls(probes@),
        decreases probes@.len() - i,
    {
        let ghost out0 = out;
        let keep: bool = match probes[i].status {
            Some(c) => crate::fetch::status_is_success(c),
            None => false,
        };
        if keep {
            let u = probes[i].url.clone();
            let ghost ug = u;
            out.push(u);
            proof {
                crate::scan::lemma_string_vec_deep_view_push(out0, out, ug);
                assert(out.deep_view() + live_urls_from(probes@, i + 1) =~= out0.deep_view()
                    + live_urls_from(probes@, i as int));
            }
        }
        i = i + 1;
    }
    proof {
        assert(out.deep_view() + live_urls_from(probes@, i as int) =~= out.deep_view());
    }
    out
}

/// Truncate a URL list to a caller-imposed cap, keeping the front.
pub fn truncate_urls(urls: &mut Vec<String>, max_files: usize)
    ensures
        final(urls)@.len() == if old(urls)@.len() <= max_files {
            old(urls)@.len() as int
        } else {
            max_files as int
        },
        final(urls)@ == old(urls)@.subrange(0, final(urls)@.len() as int),
{
    if urls.len() > max_files {
        urls.truncate(max_files);
    }
    proof {
        assert(urls@ =~= old(urls)@.subrange(0, urls@.len() as int));
    }
}

} // verus!
