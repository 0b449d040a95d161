//! In-memory storage of fetched documents, keyed by URL.

use vstd::prelude::*;

verus! {

/// A storage failure.
#[derive(Debug)]
pub enum StorageError {
    /// An input/output failure, with its description.
    Io(String),
}

/// A stored document: its URL, the Unix timestamp of storage, and its
/// content.
pub struct HtmlDocument {
    pub url: String,
    pub timestamp: i64,
    pub content: String,
}

/// Relies on std::time::SystemTime::now: the current Unix timestamp in
/// seconds, negative for clocks before the epoch and saturating at the
/// ends. Nothing can be promised of the clock's value; no input aborts.
#[verifier::external_body]
fn now_timestamp() -> i64 {
    match std::time::SystemTime::now().duration_since(std::time::UNIX_EPOCH) {
        Ok(d) => i64::try_from(d.as_secs()).unwrap_or(i64::MAX),
        Err(e) => i64::try_from(e.duration().as_secs()).map_or(i64::MIN, |v| -v),
    }
}

/// The document stored under `u`, later saves overriding earlier ones,
/// searched downward from index `i`.
pub open spec fn docs_lookup_from(ds: Seq<HtmlDocument>, u: Seq<char>, i: int) -> Option<
    HtmlDocument,
>
    decreases i + 1,
{
    if i < 0 || i >= ds.len() {
        None
    } else if ds[i].url@ == u {
        Some(ds[i])
    } else {
        docs_lookup_from(ds, u, i - 1)
    }
}

/// The document stored under `u`, if any.
pub open spec fn docs_lookup(ds: Seq<HtmlDocument>, u: Seq<char>) -> Option<HtmlDocument> {
    docs_lookup_from(ds, u, ds.len() - 1)
}

/// In-memory storage, useful for testing and small crawls.
pub struct MemoryStorage {
    entries: Vec<HtmlDocument>,
}

/// Appending a document leaves every other URL's lookup unchanged.
proof fn lemma_docs_lookup_push(ds: Seq<HtmlDocument>, d: HtmlDocument, u: Seq<char>, i: int)
    requires
        i < ds.len(),
    ensures
        docs_lookup_from(ds.push(d), u, i) == docs_lookup_from(ds, u, i),
    decreases i + 1,
{
    if i >= 0 {
        assert(ds.push(d)[i] == ds[i]);
        lemma_docs_lookup_push(ds, d, u, i - 1);
    }
}

impl MemoryStorage {
    /// The stored documents, in storage order.
    pub closed spec fn docs(self) -> Seq<HtmlDocument> {
        self.entries@
    }

    /// An empty storage.
    pub fn new() -> (r: Self)
        ensures
            r.docs() == Seq::<HtmlDocument>::empty(),
    {
        let r = MemoryStorage { entries: Vec::new() };
        proof {
            assert(r.docs() =~= Seq::<HtmlDocument>::empty());
        }
        r
    }

    /// Store a document under its URL. The saved content is thereafter
    /// returned for that URL; every other URL is unaffected.
    pub fn save_html(&mut self, url: &str, html: &str) -> (r: Result<(), StorageError>)
        ensures
            r is Ok,
            docs_lookup(final(self).docs(), url@) matches Some(d) && d.url@ == url@ && d.content@
                == html@,
            forall|u2: Seq<char>|
                u2 != url@ ==> docs_lookup(final(self).docs(), u2) == docs_lookup(
                    old(self).docs(),
                    u2,
                ),
    {
        let doc = HtmlDocument {
            url: url.to_owned(),
            timestamp: now_timestamp(),
            content: html.to_owned(),
        };
        let ghost ds0 = self.entries@;
        let ghost dg = doc;
        self.entries.push(doc);
        proof {
            assert(self.entries@ == ds0.push(dg));
            assert(self.entries@[ds0.len() as int] == dg);
            assert forall|u2: Seq<char>| u2 != url@ implies docs_lookup(self.entries@, u2)
                == docs_lookup(ds0, u2) by {
                lemma_docs_lookup_push(ds0, dg, u2, ds0.len() - 1);
            }
        }
        Ok(())
    }

    /// Fetch the document stored under a URL, if any.
    pub fn get(&self, url: &str) -> (r: Option<HtmlDocument>)
        ensures
            match r {
                Some(d) => {
                    &&& docs_lookup(self.docs(), url@) matches Some(d0)
                    &&& d.url@ == d0.url@
                    &&& d.timestamp == d0.timestamp
                    &&& d.content@ == d0.content@
                },
                None => docs_lookup(self.docs(), url@) is None,
            },
    {
        let key: String = url.to_owned();
        let mut j = self.entries.len();
        while j > 0
            invariant
                0 <= j <= self.entries@.len(),
                key@ == url@,
                docs_lookup(self.entries@, url@) == docs_lookup_from(self.entries@, url@, j - 1),
            decreases j,
        {
            if self.entries[j - 1].url == key {
                let d = &self.entries[j - 1];
                return Some(
                    HtmlDocument {
                        url: d.url.clone(),
                        timestamp: d.timestamp,
                        content: d.content.clone(),
                    },
                );
            }
            j = j - 1;
        }
        None
    }
}

} // verus!
