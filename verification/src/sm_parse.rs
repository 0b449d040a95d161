//! Parsing source map documents.
//!
//! The JSON decoding itself is done by the `sourcemap` crate behind trusted
//! wrappers; everything downstream works on [`SourceMapData`], a plain-value
//! snapshot of the parts of a map that the pipeline consumes: the source
//! paths, the optional embedded source texts, and the `sourceRoot`.

use vstd::prelude::*;

use crate::scan::lemma_opt_string_vec_deep_view;

verus! {

/// Errors from parsing a source map document.
#[derive(Debug)]
pub enum SourcemapError {
    /// The input is not valid JSON or not a valid source map.
    Parse(String),
}

impl SourcemapError {
    /// A printable description of the error.
    pub fn message(&self) -> (m: String)
        ensures
            self matches SourcemapError::Parse(d) && m@ == d@,
    {
        match self {
            SourcemapError::Parse(d) => d.clone(),
        }
    }
}

/// The semantic view of a parsed source map: one source path and one
/// optional embedded text per index, plus the optional `sourceRoot`.
#[derive(Debug)]
pub struct SourceMapData {
    pub source_root: Option<String>,
    pub sources: Vec<Option<String>>,
    pub sources_content: Vec<Option<String>>,
}

impl SourceMapData {
    /// The two per-index lists always run in step.
    pub open spec fn wf(self) -> bool {
        self.sources@.len() == self.sources_content@.len()
    }
}

#[verifier::external_type_specification]
#[verifier::external_body]
pub struct ExSourceMap(sourcemap::SourceMap);

/// Whether a JSON text decodes as a regular source map.
pub uninterp spec fn sm_parses(json: Seq<char>) -> bool;

/// The source paths a parsed map holds, index by index (with `sourceRoot`
/// already applied by the decoder).
pub uninterp spec fn sm_sources(sm: sourcemap::SourceMap) -> Seq<Option<Seq<char>>>;

/// The embedded source texts a parsed map holds, index by index.
pub uninterp spec fn sm_contents(sm: sourcemap::SourceMap) -> Seq<Option<Seq<char>>>;

/// The `sourceRoot` a parsed map holds.
pub uninterp spec fn sm_root(sm: sourcemap::SourceMap) -> Option<Seq<char>>;

/// The source paths a JSON document decodes to: the decode is a function
/// of the text alone.
pub uninterp spec fn sm_sources_of(json: Seq<char>) -> Seq<Option<Seq<char>>>;

/// The embedded source texts a JSON document decodes to.
pub uninterp spec fn sm_contents_of(json: Seq<char>) -> Seq<Option<Seq<char>>>;

/// The `sourceRoot` a JSON document decodes to.
pub uninterp spec fn sm_root_of_text(json: Seq<char>) -> Option<Seq<char>>;

/// The embedded texts aligned to the sources: one entry per source, absent
/// where the document carries none for that index.
pub open spec fn sm_contents_aligned(json: Seq<char>) -> Seq<Option<Seq<char>>> {
    Seq::new(
        sm_sources_of(json).len(),
        |i: int|
            if i < sm_contents_of(json).len() {
                sm_contents_of(json)[i]
            } else {
                None
            },
    )
}

/// Relies on sourcemap::SourceMap::from_slice: decodes a JSON document into
/// a source map, failing on invalid JSON or an incompatible map. What the
/// decoded map holds is a function of the text alone.
#[verifier::external_body]
fn sm_from_json(json: &str) -> (r: Result<sourcemap::SourceMap, String>)
    ensures
        r is Ok <==> sm_parses(json@),
        r matches Ok(sm) ==> sm_sources(sm) == sm_sources_of(json@) && sm_contents(sm)
            == sm_contents_of(json@) && sm_root(sm) == sm_root_of_text(json@),
{
    sourcemap::SourceMap::from_slice(json.as_bytes()).map_err(|e| e.to_string())
}

/// Relies on sourcemap::SourceMap::get_source_count: the number of sources.
#[verifier::external_body]
fn sm_source_count(sm: &sourcemap::SourceMap) -> (n: u32)
    ensures
        n as int == sm_sources(*sm).len(),
{
    sm.get_source_count()
}

/// Relies on sourcemap::SourceMap::get_source: the source path at `idx`,
/// or `None` out of range.
#[verifier::external_body]
fn sm_source_at(sm: &sourcemap::SourceMap, idx: u32) -> (r: Option<String>)
    ensures
        r.deep_view() == if (idx as int) < sm_sources(*sm).len() {
            sm_sources(*sm)[idx as int]
        } else {
            None
        },
{
    sm.get_source(idx).map(|s| s.to_string())
}

/// Relies on sourcemap::SourceMap::get_source_contents: the embedded text
/// for source `idx`, or `None` when absent or out of range.
#[verifier::external_body]
fn sm_content_at(sm: &sourcemap::SourceMap, idx: u32) -> (r: Option<String>)
    ensures
        r.deep_view() == if (idx as int) < sm_contents(*sm).len() {
            sm_contents(*sm)[idx as int]
        } else {
            None
        },
{
    sm.get_source_contents(idx).map(|s| s.to_string())
}

/// Relies on sourcemap::SourceMap::get_source_root: the embedded
/// `sourceRoot`, if one is present.
#[verifier::external_body]
fn sm_root_of(sm: &sourcemap::SourceMap) -> (r: Option<String>)
    ensures
        r.deep_view() == sm_root(*sm),
{
    sm.get_source_root().map(|s| s.to_string())
}

/// Parse a source map JSON string into its semantic view. Returns `Ok`
/// exactly when the text decodes as a regular source map, and the returned
/// data holds exactly the document's sources, its embedded texts aligned
/// to them, and its `sourceRoot`; the error carries the decoder's message.
#[verifier::loop_isolation(false)]
pub fn parse_sourcemap(json: &str) -> (r: Result<SourceMapData, SourcemapError>)
    ensures
        r is Ok <==> sm_parses(json@),
        r matches Ok(d) ==> {
            &&& d.wf()
            &&& d.sources.deep_view() == sm_sources_of(json@)
            &&& d.sources_content.deep_view() == sm_contents_aligned(json@)
            &&& d.source_root.deep_view() == sm_root_of_text(json@)
        },
{
    let sm = match sm_from_json(json) {
        Ok(sm) => sm,
        Err(m) => {
            return Err(SourcemapError::Parse(m));
        },
    };
    let ghost srcs = sm_sources_of(json@);
    let ghost conts = sm_contents_aligned(json@);
    let n = sm_source_count(&sm);
    let mut sources: Vec<Option<String>> = Vec::new();
    let mut sources_content: Vec<Option<String>> = Vec::new();
    proof {
        assert(sources.deep_view() =~= srcs.subrange(0, 0));
        assert(sources_content.deep_view() =~= conts.subrange(0, 0));
    }
    let mut i: u32 = 0;
    while i < n
        invariant
            i <= n,
            n as int == srcs.len(),
            srcs == sm_sources(sm),
            conts == sm_contents_aligned(json@),
            sm_contents(sm) == sm_contents_of(json@),
            sources@.len() == i as int,
            sources_content@.len() == i as int,
            sources.deep_view() == srcs.subrange(0, i as int),
            sources_content.deep_view() == conts.subrange(0, i as int),
        decreases n - i,
    {
        let ghost sources0 = sources;
        let ghost contents0 = sources_content;
        let src = sm_source_at(&sm, i);
        let cont = sm_content_at(&sm, i);
        let ghost srcg = src;
        let ghost contg = cont;
        sources.push(src);
        sources_content.push(cont);
        i = i + 1;
        proof {
            crate::scan::lemma_opt_string_vec_deep_view_push(sources0, sources, srcg);
            crate::scan::lemma_opt_string_vec_deep_view_push(contents0, sources_content, contg);
            assert(sources.deep_view() =~= srcs.subrange(0, i as int));
            assert(sources_content.deep_view() =~= conts.subrange(0, i as int));
        }
    }
    proof {
        assert(sources.deep_view() =~= srcs);
        assert(sources_content.deep_view() =~= conts);
    }
    let source_root = sm_root_of(&sm);
    Ok(SourceMapData { source_root, sources, sources_content })
}

/// The present source paths of a map, from index `i` on.
pub open spec fn present_sources_from(ss: Seq<Option<Seq<char>>>, i: int) -> Seq<Seq<char>>
    decreases ss.len() - i,
{
    if i < 0 || i >= ss.len() {
        Seq::empty()
    } else {
        match ss[i] {
            Some(s) => seq![s] + present_sources_from(ss, i + 1),
            None => present_sources_from(ss, i + 1),
        }
    }
}

/// The list of original source paths contained in the map, in order,
/// skipping absent entries.
pub open spec fn present_sources(ss: Seq<Option<Seq<char>>>) -> Seq<Seq<char>> {
    present_sources_from(ss, 0)
}

/// Return the list of original source paths contained in the map.
#[verifier::loop_isolation(false)]
pub fn sources_list(sm: &SourceMapData) -> (r: Vec<String>)
    ensures
        r.deep_view() == present_sources(sm.sources.deep_view()),
{
    proof {
        lemma_opt_string_vec_deep_view(sm.sources);
    }
    let ghost ss = sm.sources.deep_view();
    let mut out: Vec<String> = Vec::new();
    let mut i: usize = 0;
    while i < sm.sources.len()
        invariant
            0 <= i <= sm.sources@.len(),
            ss == sm.sources.deep_view(),
            out.deep_view() + present_sources_from(ss, i as int) == present_sources(ss),
        decreases sm.sources@.len() - i,
    {
        let ghost out0 = out;
        match &sm.sources[i] {
            Some(s) => {
                let item = s.clone();
                let ghost itemg = item;
                out.push(item);
                proof {
                    crate::scan::lemma_string_vec_deep_view_push(out0, out, itemg);
                    assert(present_sources_from(ss, i as int) == seq![ss[i as int].unwrap()]
                        + present_sources_from(ss, i + 1));
                    assert(out.deep_view() + present_sources_from(ss, i + 1) =~= out0.deep_view()
                        + present_sources_from(ss, i as int));
                }
            },
            None => {
                proof {
                    assert(present_sources_from(ss, i as int) == present_sources_from(ss, i + 1));
                }
            },
        }
        i = i + 1;
    }
    proof {
        assert(out.deep_view() + present_sources_from(ss, i as int) =~= out.deep_view());
    }
    out
}

} // verus!
