//! Locating `sourceMappingURL` comments in JavaScript text.
//!
//! A JS body is scanned for line comments (`//# sourceMappingURL=<value>`,
//! also `//@ …`) and block comments (`/*# sourceMappingURL=<value> */`).
//! Values are trimmed and returned in discovery order.

use vstd::prelude::*;

use crate::scan::CharClass;
use crate::scan::in_class;
use crate::scan::lemma_string_vec_deep_view;
use crate::scan::lit_at;
use crate::scan::match_at;
use crate::scan::run_end;
use crate::scan::scan_while;
use crate::scan::scan_ws_back;
use crate::scan::take_range;
use crate::scan::to_chars;
use crate::scan::ws_back;

verus! {

/// The marker that introduces a source map reference.
pub open spec fn sm_marker() -> Seq<char> {
    "sourceMappingURL="@
}

/// A `//#` or `//@` line-comment lead stands at `i`.
pub open spec fn line_lead_at(s: Seq<char>, i: int) -> bool {
    &&& 0 <= i
    &&& i + 3 <= s.len()
    &&& s[i] == '/'
    &&& s[i + 1] == '/'
    &&& (s[i + 2] == '#' || s[i + 2] == '@')
}

/// A `/*#` block-comment lead stands at `i`.
pub open spec fn block_lead_at(s: Seq<char>, i: int) -> bool {
    &&& 0 <= i
    &&& i + 3 <= s.len()
    &&& s[i] == '/'
    &&& s[i + 1] == '*'
    &&& s[i + 2] == '#'
}

/// Where the marker must stand: right after the lead and any whitespace.
pub open spec fn marker_pos(s: Seq<char>, i: int) -> int {
    run_end(s, i + 3, CharClass::Ws)
}

/// Where the referenced value starts, for a comment whose lead is at `i`.
pub open spec fn value_start(s: Seq<char>, i: int) -> int {
    marker_pos(s, i) + sm_marker().len()
}

/// End of a line-comment value: the first whitespace after it.
pub open spec fn line_value_end(s: Seq<char>, i: int) -> int {
    run_end(s, value_start(s, i), CharClass::NonWs)
}

/// A full line-comment source map reference stands at `i`.
pub open spec fn line_match_at(s: Seq<char>, i: int) -> bool {
    &&& line_lead_at(s, i)
    &&& i + 3 <= marker_pos(s, i)
    &&& match_at(s, sm_marker(), marker_pos(s, i))
    &&& value_start(s, i) < line_value_end(s, i)
    &&& line_value_end(s, i) <= s.len()
}

/// The (whitespace-free) value of a line-comment reference at `i`.
pub open spec fn line_value(s: Seq<char>, i: int) -> Seq<char> {
    s.subrange(value_start(s, i), line_value_end(s, i))
}

/// End of a block-comment value: the first `*` after it.
pub open spec fn block_value_end(s: Seq<char>, i: int) -> int {
    run_end(s, value_start(s, i), CharClass::NonStar)
}

/// A full block-comment source map reference stands at `i`: lead, marker,
/// a non-empty run up to the next `*`, and the closing `*/`.
pub open spec fn block_match_at(s: Seq<char>, i: int) -> bool {
    &&& block_lead_at(s, i)
    &&& i + 3 <= marker_pos(s, i)
    &&& match_at(s, sm_marker(), marker_pos(s, i))
    &&& value_start(s, i) < block_value_end(s, i)
    &&& block_value_end(s, i) + 2 <= s.len()
    &&& s[block_value_end(s, i)] == '*'
    &&& s[block_value_end(s, i) + 1] == '/'
}

/// The value of a block-comment reference at `i`, trimmed of whitespace.
pub open spec fn block_value(s: Seq<char>, i: int) -> Seq<char> {
    let v0 = value_start(s, i);
    let v1 = block_value_end(s, i);
    let a = run_end(s, v0, CharClass::Ws);
    let b = ws_back(s, v1, a);
    s.subrange(a, b)
}

/// All source map references in `s` at or after `i`, leftmost first; each
/// match is consumed so the scan resumes after it.
pub open spec fn scan_sm_urls(s: Seq<char>, i: int) -> Seq<Seq<char>>
    decreases s.len() - i,
{
    if i < 0 || i >= s.len() {
        Seq::empty()
    } else if line_match_at(s, i) {
        seq![line_value(s, i)] + scan_sm_urls(s, line_value_end(s, i))
    } else if block_match_at(s, i) {
        seq![block_value(s, i)] + scan_sm_urls(s, block_value_end(s, i) + 2)
    } else {
        scan_sm_urls(s, i + 1)
    }
}

/// The list of source map references in a JS text, in order of discovery.
pub open spec fn sourcemap_url_list(s: Seq<char>) -> Seq<Seq<char>> {
    scan_sm_urls(s, 0)
}

/// Try to recognize a line-comment reference whose lead is at `i`.
#[verifier::loop_isolation(false)]
fn try_line_at(js: &str, cs: &Vec<char>, marker: &Vec<char>, i: usize) -> (r: Option<
    (String, usize),
>)
    requires
        cs@ == js@,
        marker@ == sm_marker(),
        i < cs@.len(),
    ensures
        match r {
            Some(p) => {
                &&& line_match_at(cs@, i as int)
                &&& p.0@ == line_value(cs@, i as int)
                &&& p.1 == line_value_end(cs@, i as int)
                &&& i < p.1 <= cs@.len()
            },
            None => !line_match_at(cs@, i as int),
        },
{
    if !(cs.len() - i >= 3 && cs[i] == '/' && cs[i + 1] == '/' && (cs[i + 2] == '#' || cs[i + 2]
        == '@')) {
        return None;
    }
    let j = scan_while(cs, i + 3, CharClass::Ws);
    if !lit_at(cs, j, marker) {
        return None;
    }
    let v0 = j + marker.len();
    let v1 = scan_while(cs, v0, CharClass::NonWs);
    if v1 == v0 {
        return None;
    }
    let val = take_range(js, v0, v1);
    Some((val, v1))
}

/// Try to recognize a block-comment reference whose lead is at `i`.
#[verifier::loop_isolation(false)]
fn try_block_at(js: &str, cs: &Vec<char>, marker: &Vec<char>, i: usize) -> (r: Option<
    (String, usize),
>)
    requires
        cs@ == js@,
        marker@ == sm_marker(),
        i < cs@.len(),
    ensures
        match r {
            Some(p) => {
                &&& block_match_at(cs@, i as int)
                &&& p.0@ == block_value(cs@, i as int)
                &&& p.1 == block_value_end(cs@, i as int) + 2
                &&& i < p.1 <= cs@.len()
            },
            None => !block_match_at(cs@, i as int),
        },
{
    if !(cs.len() - i >= 3 && cs[i] == '/' && cs[i + 1] == '*' && cs[i + 2] == '#') {
        return None;
    }
    let j = scan_while(cs, i + 3, CharClass::Ws);
    if !lit_at(cs, j, marker) {
        return None;
    }
    let v0 = j + marker.len();
    let v1 = scan_while(cs, v0, CharClass::NonStar);
    if v1 == v0 {
        return None;
    }
    if !(cs.len() - v1 >= 2 && cs[v1] == '*' && cs[v1 + 1] == '/') {
        return None;
    }
    let a = scan_while(cs, v0, CharClass::Ws);
    proof {
        crate::scan::lemma_run_end_bounds(cs@, v0 as int, CharClass::NonStar);
        crate::scan::lemma_run_end_bounds(cs@, v0 as int, CharClass::Ws);
        if a > v1 {
            assert(in_class(CharClass::Ws, cs@[v1 as int]));
        }
    }
    let b = scan_ws_back(cs, v1, a);
    let val = take_range(js, a, b);
    Some((val, v1 + 2))
}

/// Extract raw source map references from JavaScript text, preserving the
/// order in which they occur. Scanning a text twice returns the same list,
/// since the result is a function of the text alone.
#[verifier::loop_isolation(false)]
pub fn extract_sourcemap_urls(js: &str) -> (r: Vec<String>)
    ensures
        r.deep_view() == sourcemap_url_list(js@),
{
    let cs = to_chars(js);
    let marker = to_chars("sourceMappingURL=");
    let mut out: Vec<String> = Vec::new();
    let mut i: usize = 0;
    while i < cs.len()
        invariant
            0 <= i <= cs@.len(),
            out.deep_view() + scan_sm_urls(cs@, i as int) == sourcemap_url_list(cs@),
        decreases cs@.len() - i,
    {
        let ghost out0 = out;
        let ghost i0 = i as int;
        if let Some((val, e)) = try_line_at(js, &cs, &marker, i) {
            let ghost valg = val;
            let ghost v = val@;
            out.push(val);
            i = e;
            proof {
                crate::scan::lemma_string_vec_deep_view_push(out0, out, valg);
                assert(scan_sm_urls(cs@, i0) == seq![v] + scan_sm_urls(cs@, i as int));
                assert(out.deep_view() + scan_sm_urls(cs@, i as int) =~= out0.deep_view() + scan_sm_urls(
                    cs@,
                    i0,
                ));
            }
        } else if let Some((val, e)) = try_block_at(js, &cs, &marker, i) {
            let ghost valg = val;
            let ghost v = val@;
            out.push(val);
            i = e;
            proof {
                crate::scan::lemma_string_vec_deep_view_push(out0, out, valg);
                assert(scan_sm_urls(cs@, i0) == seq![v] + scan_sm_urls(cs@, i as int));
                assert(out.deep_view() + scan_sm_urls(cs@, i as int) =~= out0.deep_view() + scan_sm_urls(
                    cs@,
                    i0,
                ));
            }
        } else {
            i = i + 1;
        }
    }
    proof {
        assert(out.deep_view() + scan_sm_urls(cs@, i as int) =~= out.deep_view());
    }
    out
}

/// Extraction is idempotent: any two results of `extract_sourcemap_urls`
/// on the same text are the same list, because each is pinned to
/// `sourcemap_url_list` of the text alone. The list is order-preserving by
/// construction: `scan_sm_urls` walks the text left to right and emits
/// each reference where it stands.
pub proof fn lemma_extract_sourcemap_urls_idempotent(
    r1: Seq<Seq<char>>,
    r2: Seq<Seq<char>>,
    js: Seq<char>,
)
    requires
        r1 == sourcemap_url_list(js),
        r2 == sourcemap_url_list(js),
    ensures
        r1 == r2,
{
}

/// The marker of the single-reference scan: a `#`, one space, and the name.
pub open spec fn cmt_marker() -> Seq<char> {
    "# sourceMappingURL="@
}

/// Where the value of a single-reference comment at `i` starts.
pub open spec fn cmt_value_start(s: Seq<char>, i: int) -> int {
    i + 2 + cmt_marker().len()
}

/// End of the value: the first whitespace or `*` after it.
pub open spec fn cmt_value_end(s: Seq<char>, i: int) -> int {
    run_end(s, cmt_value_start(s, i), CharClass::NonWsStar)
}

/// A `//# sourceMappingURL=` or `/*# sourceMappingURL=` comment stands at `i`.
pub open spec fn cmt_match_at(s: Seq<char>, i: int) -> bool {
    &&& 0 <= i
    &&& i + 2 <= s.len()
    &&& s[i] == '/'
    &&& (s[i + 1] == '/' || s[i + 1] == '*')
    &&& match_at(s, cmt_marker(), i + 2)
    &&& cmt_value_start(s, i) < cmt_value_end(s, i)
    &&& cmt_value_end(s, i) <= s.len()
}

/// The first source map reference at or after `i`, if any.
pub open spec fn first_cmt_url(s: Seq<char>, i: int) -> Option<Seq<char>>
    decreases s.len() - i,
{
    if i < 0 || i >= s.len() {
        None
    } else if cmt_match_at(s, i) {
        Some(s.subrange(cmt_value_start(s, i), cmt_value_end(s, i)))
    } else {
        first_cmt_url(s, i + 1)
    }
}

/// Find the first `sourceMappingURL` comment in JavaScript content.
#[verifier::loop_isolation(false)]
pub fn find_sourcemap_url_in_js(js: &str) -> (r: Option<String>)
    ensures
        match r {
            Some(v) => first_cmt_url(js@, 0) == Some(v@),
            None => first_cmt_url(js@, 0) is None,
        },
{
    let cs = to_chars(js);
    let marker = to_chars("# sourceMappingURL=");
    let mut i: usize = 0;
    while i < cs.len()
        invariant
            0 <= i <= cs@.len(),
            first_cmt_url(cs@, 0) == first_cmt_url(cs@, i as int),
        decreases cs@.len() - i,
    {
        if cs.len() - i >= 2 && cs[i] == '/' && (cs[i + 1] == '/' || cs[i + 1] == '*') && lit_at(
            &cs,
            i + 2,
            &marker,
        ) {
            let v0 = i + 2 + marker.len();
            let v1 = scan_while(&cs, v0, CharClass::NonWsStar);
            if v1 > v0 {
                let val = take_range(js, v0, v1);
                return Some(val);
            }
        }
        i = i + 1;
    }
    None
}

/// The URL a raw reference resolves to: its own absolute parse when it has
/// one, otherwise its resolution against the base.
pub open spec fn candidate_url(base: Seq<char>, s: Seq<char>) -> Option<Seq<char>> {
    match crate::urls::url_norm_of(s) {
        Some(u) => Some(u),
        None => crate::urls::url_join_of(base, s),
    }
}

/// Validated URLs from index `i` on, skipping what `seen` already holds.
pub open spec fn validated_from(
    base: Seq<char>,
    raw: Seq<Seq<char>>,
    i: int,
    seen: Seq<Seq<char>>,
) -> Seq<Seq<char>>
    decreases raw.len() - i,
{
    if i < 0 || i >= raw.len() {
        Seq::empty()
    } else {
        match candidate_url(base, raw[i]) {
            None => validated_from(base, raw, i + 1, seen),
            Some(u) => if seen.contains(u) {
                validated_from(base, raw, i + 1, seen)
            } else {
                seq![u] + validated_from(base, raw, i + 1, seen.push(u))
            },
        }
    }
}

/// The deduplicated, resolved URL list for a batch of raw references.
pub open spec fn validated_urls(base: Seq<char>, raw: Seq<Seq<char>>) -> Seq<Seq<char>> {
    validated_from(base, raw, 0, Seq::empty())
}

/// Validate raw URL strings, resolve relatives against `base`, and
/// deduplicate, keeping first occurrences in order.
#[verifier::loop_isolation(false)]
pub fn validate_sourcemap_urls(base: &str, raw: &Vec<String>) -> (r: Vec<String>)
    ensures
        r.deep_view() == validated_urls(base@, raw.deep_view()),
{
    proof {
        crate::scan::lemma_string_vec_deep_view(*raw);
    }
    let ghost rs = raw.deep_view();
    let mut out: Vec<String> = Vec::new();
    proof {
        assert(out.deep_view() =~= Seq::<Seq<char>>::empty());
    }
    let mut i: usize = 0;
    while i < raw.len()
        invariant
            0 <= i <= raw@.len(),
            rs == raw.deep_view(),
            validated_urls(base@, rs) == out.deep_view() + validated_from(
                base@,
                rs,
                i as int,
                out.deep_view(),
            ),
        decreases raw@.len() - i,
    {
        let ghost out0 = out;
        let s = &raw[i];
        let cand: Option<String> = match crate::urls::parse_url(s.as_str()) {
            Some(u) => Some(u),
            None => crate::urls::join_url(base, s.as_str()),
        };
        match cand {
            Some(u) => {
                if !crate::scan::contains_string(&out, &u) {
                    let ghost ug = u;
                    out.push(u);
                    proof {
                        crate::scan::lemma_string_vec_deep_view_push(out0, out, ug);
                        assert(out.deep_view() + validated_from(base@, rs, i + 1, out.deep_view())
                            =~= out0.deep_view() + (seq![ug@] + validated_from(
                            base@,
                            rs,
                            i + 1,
                            out0.deep_view().push(ug@),
                        )));
                    }
                }
            },
            None => {
            },
        }
        i = i + 1;
    }
    proof {
        assert(out.deep_view() + validated_from(base@, rs, i as int, out.deep_view())
            =~= out.deep_view());
    }
    out
}

/// Every validated list is deduplicating: it is no longer than its input,
/// its members are pairwise distinct, and each member is an input's own
/// absolute parse or the input's resolution against the base.
pub proof fn lemma_validated_from_dedup(
    base: Seq<char>,
    raw: Seq<Seq<char>>,
    i: int,
    seen: Seq<Seq<char>>,
)
    requires
        0 <= i,
    ensures
        i <= raw.len() ==> validated_from(base, raw, i, seen).len() <= raw.len() - i,
        forall|k: int|
            0 <= k < validated_from(base, raw, i, seen).len() ==> exists|j: int|
                i <= j < raw.len() && candidate_url(base, raw[j]) == Some(
                    #[trigger] validated_from(base, raw, i, seen)[k],
                ),
        forall|k: int|
            0 <= k < validated_from(base, raw, i, seen).len() ==> !seen.contains(
                #[trigger] validated_from(base, raw, i, seen)[k],
            ),
        forall|k1: int, k2: int|
            #![trigger validated_from(base, raw, i, seen)[k1], validated_from(base, raw, i, seen)[k2]]
            0 <= k1 < k2 < validated_from(base, raw, i, seen).len() ==> validated_from(
                base,
                raw,
                i,
                seen,
            )[k1] != validated_from(base, raw, i, seen)[k2],
    decreases raw.len() - i,
{
    if i >= raw.len() {
    } else {
        let cur = validated_from(base, raw, i, seen);
        match candidate_url(base, raw[i]) {
            None => {
                lemma_validated_from_dedup(base, raw, i + 1, seen);
                let rest = validated_from(base, raw, i + 1, seen);
                assert forall|k: int| #![trigger cur[k]] 0 <= k < cur.len() implies exists|j: int|
                    i <= j < raw.len() && candidate_url(base, raw[j]) == Some(cur[k]) by {
                    let j = choose|j: int|
                        i + 1 <= j < raw.len() && candidate_url(base, raw[j]) == Some(rest[k]);
                    assert(i <= j < raw.len() && candidate_url(base, raw[j]) == Some(cur[k]));
                }
            },
            Some(u) => {
                if seen.contains(u) {
                    lemma_validated_from_dedup(base, raw, i + 1, seen);
                    let rest = validated_from(base, raw, i + 1, seen);
                    assert forall|k: int| #![trigger cur[k]] 0 <= k < cur.len() implies exists|j: int|
                        i <= j < raw.len() && candidate_url(base, raw[j]) == Some(cur[k]) by {
                        let j = choose|j: int|
                            i + 1 <= j < raw.len() && candidate_url(base, raw[j]) == Some(rest[k]);
                        assert(i <= j < raw.len() && candidate_url(base, raw[j]) == Some(cur[k]));
                    }
                } else {
                    lemma_validated_from_dedup(base, raw, i + 1, seen.push(u));
                    let rest = validated_from(base, raw, i + 1, seen.push(u));
                    assert(cur == seq![u] + rest);
                    assert(cur[0] == u);
                    assert forall|k: int| #![trigger cur[k]] 0 < k < cur.len() implies !seen.contains(cur[k])
                        && cur[k] != u by {
                        assert(cur[k] == rest[k - 1]);
                        assert(!seen.push(u).contains(rest[k - 1]));
                        if seen.contains(cur[k]) {
                            let j = choose|j: int| 0 <= j < seen.len() && seen[j] == cur[k];
                            assert(seen.push(u)[j] == cur[k]);
                            assert(seen.push(u).contains(cur[k]));
                        }
                        assert(seen.push(u)[seen.len() as int] == u);
                        if cur[k] == u {
                            assert(seen.push(u).contains(cur[k]));
                        }
                    }
                    assert forall|k: int| #![trigger cur[k]] 0 <= k < cur.len() implies exists|j: int|
                        i <= j < raw.len() && candidate_url(base, raw[j]) == Some(cur[k]) by {
                        if k == 0 {
                            assert(candidate_url(base, raw[i]) == Some(cur[0]));
                        } else {
                            let j = choose|j: int|
                                i + 1 <= j < raw.len() && candidate_url(base, raw[j]) == Some(
                                    rest[k - 1],
                                );
                            assert(i <= j < raw.len() && candidate_url(base, raw[j]) == Some(
                                cur[k],
                            ));
                        }
                    }
                    assert forall|k1: int, k2: int| #![trigger cur[k1], cur[k2]] 0 <= k1 < k2 < cur.len()
                        implies cur[k1] != cur[k2] by {
                        if k1 == 0 {
                            assert(cur[k2] != u);
                        } else {
                            assert(cur[k1] == rest[k1 - 1] && cur[k2] == rest[k2 - 1]);
                        }
                    }
                }
            },
        }
    }
}

/// `validate_sourcemap_urls` never grows its input, and every output comes
/// from an input.
pub proof fn lemma_validate_sourcemap_urls_dedup(base: Seq<char>, raw: Seq<Seq<char>>)
    ensures
        validated_urls(base, raw).len() <= raw.len(),
        forall|k: int|
            0 <= k < validated_urls(base, raw).len() ==> exists|j: int|
                0 <= j < raw.len() && candidate_url(base, raw[j]) == Some(
                    #[trigger] validated_urls(base, raw)[k],
                ),
        forall|k1: int, k2: int|
            #![trigger validated_urls(base, raw)[k1], validated_urls(base, raw)[k2]]
            0 <= k1 < k2 < validated_urls(base, raw).len() ==> validated_urls(base, raw)[k1]
                != validated_urls(base, raw)[k2],
{
    lemma_validated_from_dedup(base, raw, 0, Seq::empty());
}

} // verus!
