//! Extracting chunk ids and literal chunk paths from Webpack runtime text.
//!
//! Chunk ids are collected, deduplicated in discovery order, from three
//! generated shapes:
//!
//! - registry pushes, `webpackChunk….push([["<id>", …`;
//! - hard-coded ternary chains, `<id> === e ? "static/chunks/<id>-<hash>.js"`;
//! - the two object literals of the map-based construction
//!   `static/chunks/"+({<map>}[e]||e)+"."+{<map>}[e]`.

use vstd::prelude::*;

use crate::scan::CharClass;
use crate::scan::lit_at;
use crate::scan::match_at;
use crate::scan::run_end;
use crate::scan::scan_while;
use crate::scan::take_range;
use crate::scan::to_chars;

verus! {

/// Position after the optional `_<word>` tail of a `webpackChunk` name at `i`.
pub open spec fn a_tail(s: Seq<char>, i: int) -> int {
    let j = i + "webpackChunk"@.len();
    if j < s.len() && s[j] == '_' && run_end(s, j + 1, CharClass::Word) > j + 1 {
        run_end(s, j + 1, CharClass::Word)
    } else {
        j
    }
}

/// Where the pushed id starts: after `.push([[` and an optional quote.
pub open spec fn a_id_start(s: Seq<char>, i: int) -> int {
    let p = a_tail(s, i) + ".push([["@.len();
    if p < s.len() && s[p] == '"' {
        p + 1
    } else {
        p
    }
}

/// Where the pushed id ends.
pub open spec fn a_id_end(s: Seq<char>, i: int) -> int {
    run_end(s, a_id_start(s, i), CharClass::WordDash)
}

/// Position of the comma after the id and its optional closing quote.
pub open spec fn a_after(s: Seq<char>, i: int) -> int {
    let e = a_id_end(s, i);
    if e < s.len() && s[e] == '"' {
        e + 1
    } else {
        e
    }
}

/// A `webpackChunk….push([["<id>",` registry push stands at `i`.
pub open spec fn a_match_at(s: Seq<char>, i: int) -> bool {
    &&& match_at(s, "webpackChunk"@, i)
    &&& i + "webpackChunk"@.len() <= a_tail(s, i)
    &&& match_at(s, ".push([["@, a_tail(s, i))
    &&& a_id_start(s, i) < a_id_end(s, i)
    &&& a_id_end(s, i) <= s.len()
    &&& a_after(s, i) < s.len()
    &&& s[a_after(s, i)] == ','
}

/// The id pushed at `i`.
pub open spec fn a_id(s: Seq<char>, i: int) -> Seq<char> {
    s.subrange(a_id_start(s, i), a_id_end(s, i))
}

/// Registry-push ids at or after `i`, deduplicated against `seen`.
pub open spec fn scan_push_ids(s: Seq<char>, i: int, seen: Seq<Seq<char>>) -> Seq<Seq<char>>
    decreases s.len() - i,
{
    if i < 0 || i >= s.len() {
        Seq::empty()
    } else if a_match_at(s, i) {
        if seen.contains(a_id(s, i)) {
            scan_push_ids(s, a_after(s, i) + 1, seen)
        } else {
            seq![a_id(s, i)] + scan_push_ids(s, a_after(s, i) + 1, seen.push(a_id(s, i)))
        }
    } else {
        scan_push_ids(s, i + 1, seen)
    }
}

/// End of the decimal id at `i` of a hard-coded ternary case.
pub open spec fn b_id_end(s: Seq<char>, i: int) -> int {
    run_end(s, i, CharClass::Digit)
}

/// A hard-coded case `<id> === e ? "static/chunks/<id>-<hash>.js"` stands
/// at `i`.
pub open spec fn b_match_at(s: Seq<char>, i: int) -> bool {
    let de = b_id_end(s, i);
    let w1 = run_end(s, de, CharClass::Ws);
    let w2 = run_end(s, w1 + "==="@.len(), CharClass::Ws);
    let w3 = run_end(s, w2 + 1, CharClass::Ws);
    let w4 = run_end(s, w3 + 1, CharClass::Ws);
    let d2s = w4 + "\"static/chunks/"@.len();
    let d2e = run_end(s, d2s, CharClass::Digit);
    let rq = run_end(s, d2e + 1, CharClass::NonDQuote);
    &&& 0 <= i
    &&& i < de
    &&& match_at(s, "==="@, w1)
    &&& w2 < s.len()
    &&& s[w2] == 'e'
    &&& w3 < s.len()
    &&& s[w3] == '?'
    &&& match_at(s, "\"static/chunks/"@, w4)
    &&& d2s < d2e
    &&& d2e < s.len()
    &&& s[d2e] == '-'
    &&& i < rq
    &&& rq < s.len()
    &&& rq - ".js"@.len() > d2e + 1
    &&& match_at(s, ".js"@, rq - ".js"@.len())
}

/// Position after the closing quote of a ternary case at `i`.
pub open spec fn b_after(s: Seq<char>, i: int) -> int {
    let de = b_id_end(s, i);
    let w1 = run_end(s, de, CharClass::Ws);
    let w2 = run_end(s, w1 + "==="@.len(), CharClass::Ws);
    let w3 = run_end(s, w2 + 1, CharClass::Ws);
    let w4 = run_end(s, w3 + 1, CharClass::Ws);
    let d2s = w4 + "\"static/chunks/"@.len();
    let d2e = run_end(s, d2s, CharClass::Digit);
    run_end(s, d2e + 1, CharClass::NonDQuote) + 1
}

/// The id of a ternary case at `i`.
pub open spec fn b_id(s: Seq<char>, i: int) -> Seq<char> {
    s.subrange(i, b_id_end(s, i))
}

/// Ternary-case ids at or after `i`, deduplicated against `seen`.
pub open spec fn scan_case_ids(s: Seq<char>, i: int, seen: Seq<Seq<char>>) -> Seq<Seq<char>>
    decreases s.len() - i,
{
    if i < 0 || i >= s.len() {
        Seq::empty()
    } else if b_match_at(s, i) {
        if seen.contains(b_id(s, i)) {
            scan_case_ids(s, b_after(s, i), seen)
        } else {
            seq![b_id(s, i)] + scan_case_ids(s, b_after(s, i), seen.push(b_id(s, i)))
        }
    } else {
        scan_case_ids(s, i + 1, seen)
    }
}

/// The lead literal of the map-based construction.
pub open spec fn c_lead() -> Seq<char> {
    "static/chunks/\"+({"@
}

/// The literal between the two object literals.
pub open spec fn c_mid() -> Seq<char> {
    "}[e]||e)+\".\"+{"@
}

/// The literal closing the second object literal.
pub open spec fn c_close() -> Seq<char> {
    "}[e]"@
}

/// End of the first object literal of a map-based construction at `i`.
pub open spec fn c_m1_end(s: Seq<char>, i: int) -> int {
    run_end(s, i + c_lead().len(), CharClass::NonBrace)
}

/// Start of the second object literal.
pub open spec fn c_m2_start(s: Seq<char>, i: int) -> int {
    c_m1_end(s, i) + c_mid().len()
}

/// End of the second object literal.
pub open spec fn c_m2_end(s: Seq<char>, i: int) -> int {
    run_end(s, c_m2_start(s, i), CharClass::NonBrace)
}

/// A map-based construction stands at `i`.
pub open spec fn cmap_at(s: Seq<char>, i: int) -> bool {
    &&& match_at(s, c_lead(), i)
    &&& i + c_lead().len() < c_m1_end(s, i)
    &&& match_at(s, c_mid(), c_m1_end(s, i))
    &&& c_m2_start(s, i) < c_m2_end(s, i)
    &&& match_at(s, c_close(), c_m2_end(s, i))
}

/// The first map-based construction at or after `i`.
pub open spec fn first_cmap(s: Seq<char>, i: int) -> Option<int>
    decreases s.len() - i,
{
    if i < 0 || i >= s.len() {
        None
    } else if cmap_at(s, i) {
        Some(i)
    } else {
        first_cmap(s, i + 1)
    }
}

/// A `<digits>: "<word>` entry of an object literal stands at `j`, wholly
/// before `v`.
pub open spec fn entry_at(s: Seq<char>, j: int, v: int) -> bool {
    let e = run_end(s, j, CharClass::Digit);
    let w = run_end(s, e + 1, CharClass::Ws);
    let wr = run_end(s, w + 1, CharClass::Word);
    &&& 0 <= j
    &&& j < e
    &&& e < v
    &&& e < s.len()
    &&& s[e] == ':'
    &&& w < v
    &&& w < s.len()
    &&& s[w] == '"'
    &&& w + 1 < wr
    &&& j < wr
    &&& wr <= v
}

/// The key of an object-literal entry at `j`.
pub open spec fn entry_key(s: Seq<char>, j: int) -> Seq<char> {
    s.subrange(j, run_end(s, j, CharClass::Digit))
}

/// Position after an object-literal entry at `j`.
pub open spec fn entry_after(s: Seq<char>, j: int) -> int {
    let e = run_end(s, j, CharClass::Digit);
    let w = run_end(s, e + 1, CharClass::Ws);
    run_end(s, w + 1, CharClass::Word)
}

/// Keys of the object-literal entries in `[j, v)`, deduplicated against
/// `seen`.
pub open spec fn scan_entry_ids(s: Seq<char>, j: int, v: int, seen: Seq<Seq<char>>) -> Seq<
    Seq<char>,
>
    decreases v - j,
{
    if j < 0 || j >= v {
        Seq::empty()
    } else if entry_at(s, j, v) {
        if seen.contains(entry_key(s, j)) {
            scan_entry_ids(s, entry_after(s, j), v, seen)
        } else {
            seq![entry_key(s, j)] + scan_entry_ids(s, entry_after(s, j), v, seen.push(
                entry_key(s, j),
            ))
        }
    } else {
        scan_entry_ids(s, j + 1, v, seen)
    }
}

/// The ids contributed by a map-based construction, if one is present.
pub open spec fn cmap_ids(s: Seq<char>, seen: Seq<Seq<char>>) -> Seq<Seq<char>> {
    match first_cmap(s, 0) {
        None => Seq::empty(),
        Some(i) => {
            let m1 = scan_entry_ids(s, i + c_lead().len(), c_m1_end(s, i), seen);
            m1 + scan_entry_ids(s, c_m2_start(s, i), c_m2_end(s, i), seen + m1)
        },
    }
}

/// Every chunk id the runtime text yields, deduplicated in discovery
/// order: registry pushes first, then ternary cases, then the two object
/// literals of a map-based construction.
pub open spec fn chunk_ids_of(s: Seq<char>) -> Seq<Seq<char>> {
    let a = scan_push_ids(s, 0, Seq::empty());
    let b = scan_case_ids(s, 0, a);
    a + b + cmap_ids(s, a + b)
}

/// Recognize a registry push at `i`.
#[verifier::loop_isolation(false)]
fn try_push_at(js: &str, cs: &Vec<char>, i: usize, al: &Vec<char>, pl: &Vec<char>) -> (r: Option<
    (String, usize),
>)
    requires
        cs@ == js@,
        al@ == "webpackChunk"@,
        pl@ == ".push([["@,
        i < cs@.len(),
    ensures
        match r {
            Some(p) => {
                &&& a_match_at(cs@, i as int)
                &&& p.0@ == a_id(cs@, i as int)
                &&& p.1 == a_after(cs@, i as int) + 1
                &&& i < p.1 <= cs@.len()
            },
            None => !a_match_at(cs@, i as int),
        },
{
    if i >= cs.len() || !lit_at(cs, i, al) {
        return None;
    }
    let j = i + al.len();
    let t: usize = if j < cs.len() && cs[j] == '_' && scan_while(cs, j + 1, CharClass::Word) > j
        + 1 {
        scan_while(cs, j + 1, CharClass::Word)
    } else {
        j
    };
    if !lit_at(cs, t, pl) {
        return None;
    }
    let p = t + pl.len();
    let q0: usize = if p < cs.len() && cs[p] == '"' {
        p + 1
    } else {
        p
    };
    let e = scan_while(cs, q0, CharClass::WordDash);
    if e == q0 {
        return None;
    }
    let q1: usize = if e < cs.len() && cs[e] == '"' {
        e + 1
    } else {
        e
    };
    if !(q1 < cs.len() && cs[q1] == ',') {
        return None;
    }
    let id = take_range(js, q0, e);
    Some((id, q1 + 1))
}

/// Recognize a hard-coded ternary case at `i`.
#[verifier::loop_isolation(false)]
fn try_case_at(js: &str, cs: &Vec<char>, i: usize, el: &Vec<char>, bl: &Vec<char>, jl: &Vec<
    char,
>) -> (r: Option<(String, usize)>)
    requires
        cs@ == js@,
        el@ == "==="@,
        bl@ == "\"static/chunks/"@,
        jl@ == ".js"@,
        i < cs@.len(),
    ensures
        match r {
            Some(p) => {
                &&& b_match_at(cs@, i as int)
                &&& p.0@ == b_id(cs@, i as int)
                &&& p.1 == b_after(cs@, i as int)
                &&& i < p.1 <= cs@.len()
            },
            None => !b_match_at(cs@, i as int),
        },
{
    let n = cs.len();
    let de = scan_while(cs, i, CharClass::Digit);
    if de == i {
        return None;
    }
    let w1 = scan_while(cs, de, CharClass::Ws);
    if !lit_at(cs, w1, el) {
        return None;
    }
    let w2 = scan_while(cs, w1 + el.len(), CharClass::Ws);
    if !(w2 < n && cs[w2] == 'e') {
        return None;
    }
    let w3 = scan_while(cs, w2 + 1, CharClass::Ws);
    if !(w3 < n && cs[w3] == '?') {
        return None;
    }
    let w4 = scan_while(cs, w3 + 1, CharClass::Ws);
    if !lit_at(cs, w4, bl) {
        return None;
    }
    let d2s = w4 + bl.len();
    let d2e = scan_while(cs, d2s, CharClass::Digit);
    if !(d2s < d2e && d2e < n && cs[d2e] == '-') {
        return None;
    }
    let rq = scan_while(cs, d2e + 1, CharClass::NonDQuote);
    if !(rq < n) {
        return None;
    }
    if !(rq >= jl.len() && rq - jl.len() > d2e + 1 && lit_at(cs, rq - jl.len(), jl)) {
        return None;
    }
    let id = take_range(js, i, de);
    Some((id, rq + 1))
}

/// Recognize an object-literal entry at `j`, wholly before `v`.
#[verifier::loop_isolation(false)]
fn try_entry_at(js: &str, cs: &Vec<char>, j: usize, v: usize) -> (r: Option<(String, usize)>)
    requires
        cs@ == js@,
        j < v <= cs@.len(),
    ensures
        match r {
            Some(p) => {
                &&& entry_at(cs@, j as int, v as int)
                &&& p.0@ == entry_key(cs@, j as int)
                &&& p.1 == entry_after(cs@, j as int)
                &&& j < p.1 <= v
            },
            None => !entry_at(cs@, j as int, v as int),
        },
{
    let n = cs.len();
    let e = scan_while(cs, j, CharClass::Digit);
    if !(j < e && e < v && e < n && cs[e] == ':') {
        return None;
    }
    let w = scan_while(cs, e + 1, CharClass::Ws);
    if !(w < v && w < n && cs[w] == '"') {
        return None;
    }
    let wr = scan_while(cs, w + 1, CharClass::Word);
    if !(w + 1 < wr && wr <= v) {
        return None;
    }
    let key = take_range(js, j, e);
    Some((key, wr))
}

/// Collect the keys of an object literal in `[j0, v)` into `out`,
/// deduplicating against what `out` already holds.
#[verifier::loop_isolation(false)]
fn collect_entry_ids(js: &str, cs: &Vec<char>, j0: usize, v: usize, out: &mut Vec<String>)
    requires
        cs@ == js@,
        j0 <= v <= cs@.len(),
    ensures
        final(out).deep_view() == old(out).deep_view() + scan_entry_ids(
            cs@,
            j0 as int,
            v as int,
            old(out).deep_view(),
        ),
{
    let ghost target = old(out).deep_view() + scan_entry_ids(
        cs@,
        j0 as int,
        v as int,
        old(out).deep_view(),
    );
    let mut j = j0;
    while j < v
        invariant
            j0 <= j <= v <= cs@.len(),
            cs@ == js@,
            target == out.deep_view() + scan_entry_ids(cs@, j as int, v as int, out.deep_view()),
        decreases v - j,
    {
        let ghost out0 = *out;
        if let Some((key, e)) = try_entry_at(js, cs, j, v) {
            if !crate::scan::contains_string(out, &key) {
                let ghost keyg = key;
                out.push(key);
                proof {
                    crate::scan::lemma_string_vec_deep_view_push(out0, *out, keyg);
                    assert(out.deep_view() + scan_entry_ids(cs@, e as int, v as int, out.deep_view())
                        =~= out0.deep_view() + (seq![keyg@] + scan_entry_ids(
                        cs@,
                        e as int,
                        v as int,
                        out0.deep_view().push(keyg@),
                    )));
                }
            }
            j = e;
        } else {
            j = j + 1;
        }
    }
}

/// Extract likely chunk ids from Webpack runtime code: registry pushes,
/// hard-coded ternary cases, and the object literals of a map-based
/// construction, deduplicated in discovery order.
#[verifier::loop_isolation(false)]
pub fn extract_chunk_ids(js: &str) -> (r: Vec<String>)
    ensures
        r.deep_view() == chunk_ids_of(js@),
{
    let cs = to_chars(js);
    let al = to_chars("webpackChunk");
    let pl = to_chars(".push([[");
    let el = to_chars("===");
    let bl = to_chars("\"static/chunks/");
    let jl = to_chars(".js");
    let cl = to_chars("static/chunks/\"+({");
    let ml = to_chars("}[e]||e)+\".\"+{");
    let zl = to_chars("}[e]");

    let mut out: Vec<String> = Vec::new();
    proof {
        assert(out.deep_view() =~= Seq::<Seq<char>>::empty());
    }
    // registry pushes
    let mut i: usize = 0;
    while i < cs.len()
        invariant
            0 <= i <= cs@.len(),
            scan_push_ids(cs@, 0, Seq::empty()) == out.deep_view() + scan_push_ids(
                cs@,
                i as int,
                out.deep_view(),
            ),
        decreases cs@.len() - i,
    {
        let ghost out0 = out;
        if let Some((id, e)) = try_push_at(js, &cs, i, &al, &pl) {
            if !crate::scan::contains_string(&out, &id) {
                let ghost idg = id;
                out.push(id);
                proof {
                    crate::scan::lemma_string_vec_deep_view_push(out0, out, idg);
                    assert(out.deep_view() + scan_push_ids(cs@, e as int, out.deep_view())
                        =~= out0.deep_view() + (seq![idg@] + scan_push_ids(
                        cs@,
                        e as int,
                        out0.deep_view().push(idg@),
                    )));
                }
            }
            i = e;
        } else {
            i = i + 1;
        }
    }
    let ghost aa = out.deep_view();
    proof {
        assert(aa == scan_push_ids(cs@, 0, Seq::empty()));
    }
    // hard-coded ternary cases
    let mut i: usize = 0;
    while i < cs.len()
        invariant
            0 <= i <= cs@.len(),
            aa + scan_case_ids(cs@, 0, aa) == out.deep_view() + scan_case_ids(
                cs@,
                i as int,
                out.deep_view(),
            ),
        decreases cs@.len() - i,
    {
        let ghost out0 = out;
        if let Some((id, e)) = try_case_at(js, &cs, i, &el, &bl, &jl) {
            if !crate::scan::contains_string(&out, &id) {
                let ghost idg = id;
                out.push(id);
                proof {
                    crate::scan::lemma_string_vec_deep_view_push(out0, out, idg);
                    assert(out.deep_view() + scan_case_ids(cs@, e as int, out.deep_view())
                        =~= out0.deep_view() + (seq![idg@] + scan_case_ids(
                        cs@,
                        e as int,
                        out0.deep_view().push(idg@),
                    )));
                }
            }
            i = e;
        } else {
            i = i + 1;
        }
    }
    let ghost ab = out.deep_view();
    proof {
        assert(ab == aa + scan_case_ids(cs@, 0, aa));
    }
    // object literals of a map-based construction
    let mut i: usize = 0;
    let mut found: Option<usize> = None;
    while i < cs.len() && found.is_none()
        invariant
            0 <= i <= cs@.len(),
            match found {
                Some(f) => first_cmap(cs@, 0) == Some(f as int) && cmap_at(cs@, f as int) && f
                    < cs@.len(),
                None => first_cmap(cs@, 0) == first_cmap(cs@, i as int),
            },
        decreases cs@.len() - i + (if found.is_none() {
            1int
        } else {
            0int
        }),
    {
        if lit_at(&cs, i, &cl) {
            let m1e = scan_while(&cs, i + cl.len(), CharClass::NonBrace);
            if i + cl.len() < m1e && lit_at(&cs, m1e, &ml) {
                let m2s = m1e + ml.len();
                let m2e = scan_while(&cs, m2s, CharClass::NonBrace);
                if m2s < m2e && lit_at(&cs, m2e, &zl) {
                    found = Some(i);
                } else {
                    i = i + 1;
                }
            } else {
                i = i + 1;
            }
        } else {
            i = i + 1;
        }
    }
    match found {
        None => {
            proof {
                assert(cmap_ids(cs@, ab) =~= Seq::<Seq<char>>::empty());
                assert(out.deep_view() =~= chunk_ids_of(cs@));
            }
        },
        Some(f) => {
            let m1s = f + cl.len();
            let m1e = scan_while(&cs, m1s, CharClass::NonBrace);
            let m2s = m1e + ml.len();
            let m2e = scan_while(&cs, m2s, CharClass::NonBrace);
            collect_entry_ids(js, &cs, m1s, m1e, &mut out);
            collect_entry_ids(js, &cs, m2s, m2e, &mut out);
            proof {
                assert(out.deep_view() =~= chunk_ids_of(cs@));
            }
        },
    }
    out
}

/// A literal chunk path `static/chunks/….js` stands at `i`: the shortest
/// quote-free continuation ending in `.js`.
pub open spec fn lit_path_at(s: Seq<char>, i: int) -> bool {
    let st = i + "static/chunks/"@.len();
    let m = crate::scan::find_from(s, ".js"@, st + 1);
    &&& match_at(s, "static/chunks/"@, i)
    &&& m is Some
    &&& st + 1 <= m.unwrap()
    &&& m.unwrap() + ".js"@.len() <= s.len()
    &&& m.unwrap() <= run_end(s, st, CharClass::NonDQuote)
}

/// Where a literal chunk path at `i` ends.
pub open spec fn lit_path_end(s: Seq<char>, i: int) -> int {
    let st = i + "static/chunks/"@.len();
    crate::scan::find_from(s, ".js"@, st + 1).unwrap() + ".js"@.len()
}

/// The literal chunk path at `i`.
pub open spec fn lit_path(s: Seq<char>, i: int) -> Seq<char> {
    s.subrange(i, lit_path_end(s, i))
}

/// Literal chunk paths at or after `i`, deduplicated against `seen`.
pub open spec fn scan_lit_paths(s: Seq<char>, i: int, seen: Seq<Seq<char>>) -> Seq<Seq<char>>
    decreases s.len() - i,
{
    if i < 0 || i >= s.len() {
        Seq::empty()
    } else if lit_path_at(s, i) {
        if seen.contains(lit_path(s, i)) {
            scan_lit_paths(s, lit_path_end(s, i), seen)
        } else {
            seq![lit_path(s, i)] + scan_lit_paths(s, lit_path_end(s, i), seen.push(lit_path(s, i)))
        }
    } else {
        scan_lit_paths(s, i + 1, seen)
    }
}

/// Recognize a literal chunk path at `i`.
#[verifier::loop_isolation(false)]
fn try_lit_path_at(js: &str, cs: &Vec<char>, i: usize, ll: &Vec<char>, jl: &Vec<char>) -> (r:
    Option<(String, usize)>)
    requires
        cs@ == js@,
        ll@ == "static/chunks/"@,
        jl@ == ".js"@,
        i < cs@.len(),
    ensures
        match r {
            Some(p) => {
                &&& lit_path_at(cs@, i as int)
                &&& p.0@ == lit_path(cs@, i as int)
                &&& p.1 == lit_path_end(cs@, i as int)
                &&& i < p.1 <= cs@.len()
            },
            None => !lit_path_at(cs@, i as int),
        },
{
    proof {
        reveal_strlit(".js");
    }
    if i >= cs.len() || !lit_at(cs, i, ll) {
        return None;
    }
    let st = i + ll.len();
    if st >= cs.len() {
        proof {
            crate::scan::lemma_find_from_props(cs@, jl@, st + 1);
        }
        return None;
    }
    let m = match crate::scan::find_lit(cs, st + 1, jl) {
        Some(m) => m,
        None => {
            return None;
        },
    };
    let nq = scan_while(cs, st, CharClass::NonDQuote);
    if m > nq {
        return None;
    }
    let val = take_range(js, i, m + jl.len());
    Some((val, m + jl.len()))
}

/// Extract literal chunk paths such as `static/chunks/….js` appearing in
/// the runtime, deduplicated in discovery order.
#[verifier::loop_isolation(false)]
pub fn extract_literal_chunk_paths(js: &str) -> (r: Vec<String>)
    ensures
        r.deep_view() == scan_lit_paths(js@, 0, Seq::empty()),
{
    let cs = to_chars(js);
    let ll = to_chars("static/chunks/");
    let jl = to_chars(".js");
    let mut out: Vec<String> = Vec::new();
    proof {
        assert(out.deep_view() =~= Seq::<Seq<char>>::empty());
    }
    let mut i: usize = 0;
    while i < cs.len()
        invariant
            0 <= i <= cs@.len(),
            scan_lit_paths(cs@, 0, Seq::empty()) == out.deep_view() + scan_lit_paths(
                cs@,
                i as int,
                out.deep_view(),
            ),
        decreases cs@.len() - i,
    {
        let ghost out0 = out;
        if let Some((val, e)) = try_lit_path_at(js, &cs, i, &ll, &jl) {
            if !crate::scan::contains_string(&out, &val) {
                let ghost vg = val;
                out.push(val);
                proof {
                    crate::scan::lemma_string_vec_deep_view_push(out0, out, vg);
                    assert(out.deep_view() + scan_lit_paths(cs@, e as int, out.deep_view())
                        =~= out0.deep_view() + (seq![vg@] + scan_lit_paths(
                        cs@,
                        e as int,
                        out0.deep_view().push(vg@),
                    )));
                }
            }
            i = e;
        } else {
            i = i + 1;
        }
    }
    out
}

/// The asset lead for one of the two directories.
pub open spec fn asset_lead(which: bool) -> Seq<char> {
    if which {
        "static/chunks/"@
    } else {
        "static/css/"@
    }
}

/// The first `.js` or `.css` ending after `st`, whichever comes first.
pub open spec fn asset_ext_at(s: Seq<char>, st: int) -> Option<int> {
    let mjs = crate::scan::find_from(s, ".js"@, st + 1);
    let mcss = crate::scan::find_from(s, ".css"@, st + 1);
    match (mjs, mcss) {
        (Some(a), Some(b)) => if a <= b {
            Some(a)
        } else {
            Some(b)
        },
        (Some(a), None) => Some(a),
        (None, Some(b)) => Some(b),
        (None, None) => None,
    }
}

/// A manifest asset path with the lead for `which` stands at `i`.
pub open spec fn asset_at_which(s: Seq<char>, i: int, which: bool) -> bool {
    let st = i + asset_lead(which).len();
    let m = asset_ext_at(s, st);
    &&& match_at(s, asset_lead(which), i)
    &&& m is Some
    &&& st + 1 <= m.unwrap()
    &&& asset_end_from(s, m.unwrap()) <= s.len()
    &&& i < asset_end_from(s, m.unwrap())
    &&& m.unwrap() <= run_end(s, st, CharClass::NonAnyQuote)
}

/// Where an asset path whose extension starts at `m` ends.
pub open spec fn asset_end_from(s: Seq<char>, m: int) -> int {
    if match_at(s, ".js"@, m) {
        m + ".js"@.len()
    } else {
        m + ".css"@.len()
    }
}

/// The end of the asset path at `i` with lead `which`.
pub open spec fn asset_end(s: Seq<char>, i: int, which: bool) -> int {
    asset_end_from(s, asset_ext_at(s, i + asset_lead(which).len()).unwrap())
}

/// The asset path at `i` with lead `which`.
pub open spec fn asset_value(s: Seq<char>, i: int, which: bool) -> Seq<char> {
    s.subrange(i, asset_end(s, i, which))
}

/// Manifest asset paths at or after `i`, deduplicated against `seen`. The
/// `static/chunks/` lead is tried before `static/css/`; at any one
/// position at most one of them matches.
pub open spec fn scan_assets(s: Seq<char>, i: int, seen: Seq<Seq<char>>) -> Seq<Seq<char>>
    decreases s.len() - i,
{
    if i < 0 || i >= s.len() {
        Seq::empty()
    } else if asset_at_which(s, i, true) {
        if seen.contains(asset_value(s, i, true)) {
            scan_assets(s, asset_end(s, i, true), seen)
        } else {
            seq![asset_value(s, i, true)] + scan_assets(s, asset_end(s, i, true), seen.push(
                asset_value(s, i, true),
            ))
        }
    } else if asset_at_which(s, i, false) {
        if seen.contains(asset_value(s, i, false)) {
            scan_assets(s, asset_end(s, i, false), seen)
        } else {
            seq![asset_value(s, i, false)] + scan_assets(s, asset_end(s, i, false), seen.push(
                asset_value(s, i, false),
            ))
        }
    } else {
        scan_assets(s, i + 1, seen)
    }
}

/// Recognize a manifest asset path with lead `which` at `i`.
#[verifier::loop_isolation(false)]
fn try_asset_at(
    js: &str,
    cs: &Vec<char>,
    i: usize,
    which: bool,
    lead: &Vec<char>,
    jl: &Vec<char>,
    sl: &Vec<char>,
) -> (r: Option<(String, usize)>)
    requires
        cs@ == js@,
        lead@ == asset_lead(which),
        jl@ == ".js"@,
        sl@ == ".css"@,
        i < cs@.len(),
    ensures
        match r {
            Some(p) => {
                &&& asset_at_which(cs@, i as int, which)
                &&& p.0@ == asset_value(cs@, i as int, which)
                &&& p.1 == asset_end(cs@, i as int, which)
                &&& i < p.1 <= cs@.len()
            },
            None => !asset_at_which(cs@, i as int, which),
        },
{
    proof {
        reveal_strlit(".js");
        reveal_strlit(".css");
    }
    if i >= cs.len() || !lit_at(cs, i, lead) {
        return None;
    }
    let st = i + lead.len();
    if st >= cs.len() {
        proof {
            crate::scan::lemma_find_from_props(cs@, jl@, st + 1);
            crate::scan::lemma_find_from_props(cs@, sl@, st + 1);
        }
        return None;
    }
    let mjs = crate::scan::find_lit(cs, st + 1, jl);
    let mcss = crate::scan::find_lit(cs, st + 1, sl);
    proof {
        crate::scan::lemma_find_from_props(cs@, jl@, st + 1);
        crate::scan::lemma_find_from_props(cs@, sl@, st + 1);
    }
    let m: usize = match (mjs, mcss) {
        (Some(a), Some(b)) => if a <= b {
            a
        } else {
            b
        },
        (Some(a), None) => a,
        (None, Some(b)) => b,
        (None, None) => {
            return None;
        },
    };
    let nq = scan_while(cs, st, CharClass::NonAnyQuote);
    if m > nq {
        return None;
    }
    let e: usize = if lit_at(cs, m, jl) {
        m + jl.len()
    } else {
        m + sl.len()
    };
    let val = take_range(js, i, e);
    Some((val, e))
}

/// Extract asset paths (`static/chunks/….js`, `static/css/….css`) from a
/// build manifest script, deduplicated in discovery order.
#[verifier::loop_isolation(false)]
pub fn extract_paths_from_build_manifest(js: &str) -> (r: Vec<String>)
    ensures
        r.deep_view() == scan_assets(js@, 0, Seq::empty()),
{
    let cs = to_chars(js);
    let cl = to_chars("static/chunks/");
    let sl = to_chars("static/css/");
    let jl = to_chars(".js");
    let xl = to_chars(".css");
    let mut out: Vec<String> = Vec::new();
    proof {
        assert(out.deep_view() =~= Seq::<Seq<char>>::empty());
    }
    let mut i: usize = 0;
    while i < cs.len()
        invariant
            0 <= i <= cs@.len(),
            scan_assets(cs@, 0, Seq::empty()) == out.deep_view() + scan_assets(
                cs@,
                i as int,
                out.deep_view(),
            ),
        decreases cs@.len() - i,
    {
        let ghost out0 = out;
        let hit: Option<(String, usize)> = match try_asset_at(js, &cs, i, true, &cl, &jl, &xl) {
            Some(p) => Some(p),
            None => try_asset_at(js, &cs, i, false, &sl, &jl, &xl),
        };
        if let Some((val, e)) = hit {
            if !crate::scan::contains_string(&out, &val) {
                let ghost vg = val;
                out.push(val);
                proof {
                    crate::scan::lemma_string_vec_deep_view_push(out0, out, vg);
                    assert(out.deep_view() + scan_assets(cs@, e as int, out.deep_view())
                        =~= out0.deep_view() + (seq![vg@] + scan_assets(
                        cs@,
                        e as int,
                        out0.deep_view().push(vg@),
                    )));
                }
            }
            i = e;
        } else {
            i = i + 1;
        }
    }
    out
}

} // verus!
