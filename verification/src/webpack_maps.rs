//! The Next.js-style map-based chunk URL construction.
//!
//! The runtime shape `"static/chunks/"+({…}[e]||e)+"."+{…}[e]` carries two
//! object literals: the first substitutes a name for a chunk id, the second
//! holds the hash that completes the filename. A URL is emitted for an id
//! only when the second map has an entry for it.

use vstd::prelude::*;

use crate::scan::CharClass;
use crate::scan::back_while;
use crate::scan::lit_at;
use crate::scan::match_at;
use crate::scan::run_end;
use crate::scan::scan_back;
use crate::scan::scan_while;
use crate::scan::take_range;
use crate::scan::to_chars;
use crate::urls::url_join_of;

verus! {

/// Mapping-based chunk info extracted from a runtime script.
pub struct ChunkMapInfo {
    pub prefix: String,
    pub separator: String,
    pub map_first: Vec<(String, String)>,
    pub map_second: Vec<(String, String)>,
}

/// The views of an association list's entries.
pub open spec fn pairs_view(v: Seq<(String, String)>) -> Seq<(Seq<char>, Seq<char>)> {
    Seq::new(v.len(), |k: int| (v[k].0@, v[k].1@))
}

/// The opening literal of the construction: a quoted chunk directory.
pub open spec fn mp_lead() -> Seq<char> {
    "\"static/chunks/\""@
}

/// The literal closing an object literal and indexing it with the id.
pub open spec fn mp_close() -> Seq<char> {
    "}[e]"@
}

/// The quoted separator literal.
pub open spec fn mp_dot() -> Seq<char> {
    "\".\""@
}

/// Position of the `+` after the lead.
pub open spec fn mp_p1(s: Seq<char>, i: int) -> int {
    run_end(s, i + mp_lead().len(), CharClass::NonPlus)
}

/// Position of the `{` opening the first object literal.
pub open spec fn mp_p2(s: Seq<char>, i: int) -> int {
    run_end(s, mp_p1(s, i) + 1, CharClass::NonOpenBrace)
}

/// End of the first object literal.
pub open spec fn mp_m1e(s: Seq<char>, i: int) -> int {
    run_end(s, mp_p2(s, i) + 1, CharClass::NonBrace)
}

/// Position of the `+` after the first literal's `}[e]`.
pub open spec fn mp_p3(s: Seq<char>, i: int) -> int {
    run_end(s, mp_m1e(s, i) + mp_close().len(), CharClass::NonPlus)
}

/// Position of the quoted separator.
pub open spec fn mp_p4(s: Seq<char>, i: int) -> int {
    run_end(s, mp_p3(s, i) + 1, CharClass::Ws)
}

/// Position of the `+` after the quoted separator.
pub open spec fn mp_p5(s: Seq<char>, i: int) -> int {
    run_end(s, mp_p4(s, i) + mp_dot().len(), CharClass::Ws)
}

/// Position of the `{` opening the second object literal.
pub open spec fn mp_p6(s: Seq<char>, i: int) -> int {
    run_end(s, mp_p5(s, i) + 1, CharClass::NonOpenBrace)
}

/// End of the second object literal.
pub open spec fn mp_m2e(s: Seq<char>, i: int) -> int {
    run_end(s, mp_p6(s, i) + 1, CharClass::NonBrace)
}

/// A map-based chunk URL construction stands at `i`.
pub open spec fn mapinfo_at(s: Seq<char>, i: int) -> bool {
    &&& match_at(s, mp_lead(), i)
    &&& mp_p1(s, i) < s.len()
    &&& s[mp_p1(s, i)] == '+'
    &&& mp_p2(s, i) < s.len()
    &&& s[mp_p2(s, i)] == '{'
    &&& match_at(s, mp_close(), mp_m1e(s, i))
    &&& mp_p3(s, i) < s.len()
    &&& s[mp_p3(s, i)] == '+'
    &&& match_at(s, mp_dot(), mp_p4(s, i))
    &&& mp_p5(s, i) < s.len()
    &&& s[mp_p5(s, i)] == '+'
    &&& mp_p6(s, i) < s.len()
    &&& s[mp_p6(s, i)] == '{'
    &&& match_at(s, mp_close(), mp_m2e(s, i))
}

/// The first map-based construction at or after `i`.
pub open spec fn first_mapinfo(s: Seq<char>, i: int) -> Option<int>
    decreases s.len() - i,
{
    if i < 0 || i >= s.len() {
        None
    } else if mapinfo_at(s, i) {
        Some(i)
    } else {
        first_mapinfo(s, i + 1)
    }
}

/// Trim characters of class `cl` from both ends of the window `[a, b)`.
pub open spec fn trim_win(s: Seq<char>, a: int, b: int, cl: CharClass) -> (int, int) {
    let a2 = if run_end(s, a, cl) > b {
        b
    } else {
        run_end(s, a, cl)
    };
    (a2, back_while(s, b, a2, cl))
}

/// Key window of an entry `[tu, c1)`: trimmed, unquoted, trimmed again.
pub open spec fn key_win(s: Seq<char>, tu: int, c1: int) -> (int, int) {
    let w1 = trim_win(s, tu, c1, CharClass::Ws);
    let w2 = trim_win(s, w1.0, w1.1, CharClass::DQuote);
    trim_win(s, w2.0, w2.1, CharClass::Ws)
}

/// Value window of an entry `[c1+1, tv)`: trimmed, then unquoted.
pub open spec fn val_win(s: Seq<char>, c1: int, tv: int) -> (int, int) {
    let w1 = trim_win(s, c1 + 1, tv, CharClass::Ws);
    trim_win(s, w1.0, w1.1, CharClass::DQuote)
}

/// The entries of an object literal in `[u, hi)`: comma-separated parts,
/// each split at a single `:`, with keys and values trimmed and unquoted.
/// Malformed parts are skipped.
pub open spec fn obj_entries(s: Seq<char>, u: int, hi: int) -> Seq<(Seq<char>, Seq<char>)>
    decreases hi - u,
{
    if u < 0 || u >= hi {
        Seq::empty()
    } else {
        let ce = run_end(s, u, CharClass::NonComma);
        let v = if ce < u {
            u
        } else if ce > hi {
            hi
        } else {
            ce
        };
        let rest = if v < hi {
            obj_entries(s, v + 1, hi)
        } else {
            Seq::empty()
        };
        let tu = if run_end(s, u, CharClass::Ws) > v {
            v
        } else {
            run_end(s, u, CharClass::Ws)
        };
        let tv = back_while(s, v, tu, CharClass::Ws);
        let c1 = run_end(s, tu, CharClass::NonColon);
        if tu >= tv {
            rest
        } else if !(c1 < tv && run_end(s, c1 + 1, CharClass::NonColon) >= tv) {
            rest
        } else {
            let kw = key_win(s, tu, c1);
            let vw = val_win(s, c1, tv);
            seq![(s.subrange(kw.0, kw.1), s.subrange(vw.0, vw.1))] + rest
        }
    }
}

/// The value stored under `k`, later entries overriding earlier ones.
pub open spec fn assoc_get_from(m: Seq<(Seq<char>, Seq<char>)>, k: Seq<char>, i: int) -> Option<
    Seq<char>,
>
    decreases i + 1,
{
    if i < 0 || i >= m.len() {
        None
    } else if m[i].0 == k {
        Some(m[i].1)
    } else {
        assoc_get_from(m, k, i - 1)
    }
}

/// The value stored under `k` in an association list.
pub open spec fn assoc_get(m: Seq<(Seq<char>, Seq<char>)>, k: Seq<char>) -> Option<Seq<char>> {
    assoc_get_from(m, k, m.len() - 1)
}

/// Look a key up in an association list, later entries first.
#[verifier::loop_isolation(false)]
fn map_get(m: &Vec<(String, String)>, k: &String) -> (r: Option<String>)
    ensures
        r.deep_view() == assoc_get(pairs_view(m@), k@),
{
    let ghost mv = pairs_view(m@);
    let mut j = m.len();
    while j > 0
        invariant
            0 <= j <= m@.len(),
            mv == pairs_view(m@),
            assoc_get(mv, k@) == assoc_get_from(mv, k@, j - 1),
        decreases j,
    {
        proof {
            assert(mv[j - 1] == (m@[j - 1].0@, m@[j - 1].1@));
        }
        if m[j - 1].0 == *k {
            return Some(m[j - 1].1.clone());
        }
        j = j - 1;
    }
    None
}

/// Parse the entries of an object literal standing in `[u0, hi)`.
#[verifier::loop_isolation(false)]
fn parse_obj_region(js: &str, cs: &Vec<char>, u0: usize, hi: usize) -> (r: Vec<(String, String)>)
    requires
        cs@ == js@,
        u0 <= hi <= cs@.len(),
    ensures
        pairs_view(r@) == obj_entries(cs@, u0 as int, hi as int),
{
    let mut out: Vec<(String, String)> = Vec::new();
    proof {
        assert(pairs_view(out@) =~= Seq::<(Seq<char>, Seq<char>)>::empty());
    }
    let mut u = u0;
    while u < hi
        invariant
            u0 <= u <= hi <= cs@.len(),
            pairs_view(out@) + obj_entries(cs@, u as int, hi as int) == obj_entries(
                cs@,
                u0 as int,
                hi as int,
            ),
        decreases hi - u,
    {
        let ghost out0 = out;
        let ce = scan_while(cs, u, CharClass::NonComma);
        let v = if ce > hi {
            hi
        } else {
            ce
        };
        let twu = scan_while(cs, u, CharClass::Ws);
        let tu = if twu > v {
            v
        } else {
            twu
        };
        let tv = scan_back(cs, v, tu, CharClass::Ws);
        let c1 = scan_while(cs, tu, CharClass::NonColon);
        if tu < tv && c1 < tv && scan_while(cs, c1 + 1, CharClass::NonColon) >= tv {
            // key: trim, strip quotes, trim
            let ka1 = scan_while(cs, tu, CharClass::Ws);
            let ka = if ka1 > c1 {
                c1
            } else {
                ka1
            };
            let kb = scan_back(cs, c1, ka, CharClass::Ws);
            let ka2r = scan_while(cs, ka, CharClass::DQuote);
            let ka2 = if ka2r > kb {
                kb
            } else {
                ka2r
            };
            let kb2 = scan_back(cs, kb, ka2, CharClass::DQuote);
            let ka3r = scan_while(cs, ka2, CharClass::Ws);
            let ka3 = if ka3r > kb2 {
                kb2
            } else {
                ka3r
            };
            let kb3 = scan_back(cs, kb2, ka3, CharClass::Ws);
            // value: trim, strip quotes
            let va1 = scan_while(cs, c1 + 1, CharClass::Ws);
            let va = if va1 > tv {
                tv
            } else {
                va1
            };
            let vb = scan_back(cs, tv, va, CharClass::Ws);
            let va2r = scan_while(cs, va, CharClass::DQuote);
            let va2 = if va2r > vb {
                vb
            } else {
                va2r
            };
            let vb2 = scan_back(cs, vb, va2, CharClass::DQuote);
            let key = take_range(js, ka3, kb3);
            let val = take_range(js, va2, vb2);
            out.push((key, val));
            proof {
                assert(pairs_view(out@) =~= pairs_view(out0@).push(
                    (out@[out@.len() - 1].0@, out@[out@.len() - 1].1@),
                ));
                assert(pairs_view(out@) + obj_entries(cs@, v + 1, hi as int) =~= pairs_view(out0@)
                    + (seq![
                    (
                        cs@.subrange(key_win(cs@, tu as int, c1 as int).0, key_win(cs@, tu as int, c1 as int).1),
                        cs@.subrange(val_win(cs@, c1 as int, tv as int).0, val_win(cs@, c1 as int, tv as int).1),
                    ),
                ] + obj_entries(cs@, v + 1, hi as int)));
            }
        }
        if v < hi {
            u = v + 1;
        } else {
            u = hi;
            proof {
                assert(obj_entries(cs@, v as int, hi as int) == obj_entries(
                    cs@,
                    hi as int,
                    hi as int,
                ));
            }
        }
    }
    proof {
        assert(pairs_view(out@) + obj_entries(cs@, u as int, hi as int) =~= pairs_view(out@));
    }
    out
}

/// Try to extract the map-based chunk info from a runtime text. The
/// recognized shape fixes the prefix `static/chunks/` and the separator
/// `.`; the two association lists carry the parsed object literals.
#[verifier::loop_isolation(false)]
pub fn extract_chunk_maps(js: &str) -> (r: Option<ChunkMapInfo>)
    ensures
        match r {
            Some(m) => {
                &&& first_mapinfo(js@, 0) matches Some(i)
                &&& m.prefix@ == "static/chunks/"@
                &&& m.separator@ == "."@
                &&& pairs_view(m.map_first@) == obj_entries(
                    js@,
                    mp_p2(js@, first_mapinfo(js@, 0).unwrap()) + 1,
                    mp_m1e(js@, first_mapinfo(js@, 0).unwrap()),
                )
                &&& pairs_view(m.map_second@) == obj_entries(
                    js@,
                    mp_p6(js@, first_mapinfo(js@, 0).unwrap()) + 1,
                    mp_m2e(js@, first_mapinfo(js@, 0).unwrap()),
                )
            },
            None => first_mapinfo(js@, 0) is None,
        },
{
    let cs = to_chars(js);
    let ld = to_chars("\"static/chunks/\"");
    let cl = to_chars("}[e]");
    let dt = to_chars("\".\"");
    let mut i: usize = 0;
    while i < cs.len()
        invariant
            0 <= i <= cs@.len(),
            first_mapinfo(cs@, 0) == first_mapinfo(cs@, i as int),
        decreases cs@.len() - i,
    {
        if lit_at(&cs, i, &ld) {
            let p1 = scan_while(&cs, i + ld.len(), CharClass::NonPlus);
            if p1 < cs.len() && cs[p1] == '+' {
                let p2 = scan_while(&cs, p1 + 1, CharClass::NonOpenBrace);
                if p2 < cs.len() && cs[p2] == '{' {
                    let m1e = scan_while(&cs, p2 + 1, CharClass::NonBrace);
                    if lit_at(&cs, m1e, &cl) {
                        let p3 = scan_while(&cs, m1e + cl.len(), CharClass::NonPlus);
                        if p3 < cs.len() && cs[p3] == '+' {
                            let p4 = scan_while(&cs, p3 + 1, CharClass::Ws);
                            if lit_at(&cs, p4, &dt) {
                                let p5 = scan_while(&cs, p4 + dt.len(), CharClass::Ws);
                                if p5 < cs.len() && cs[p5] == '+' {
                                    let p6 = scan_while(&cs, p5 + 1, CharClass::NonOpenBrace);
                                    if p6 < cs.len() && cs[p6] == '{' {
                                        let m2e = scan_while(&cs, p6 + 1, CharClass::NonBrace);
                                        if lit_at(&cs, m2e, &cl) {
                                            let map_first = parse_obj_region(js, &cs, p2 + 1, m1e);
                                            let map_second = parse_obj_region(js, &cs, p6 + 1, m2e);
                                            return Some(
                                                ChunkMapInfo {
                                                    prefix: "static/chunks/".to_owned(),
                                                    separator: ".".to_owned(),
                                                    map_first,
                                                    map_second,
                                                },
                                            );
                                        }
                                    }
                                }
                            }
                        }
                    }
                }
            }
        }
        i = i + 1;
    }
    None
}

/// The URL the map-based construction emits for one id: only when the
/// second map has an entry, with the first map's value substituting for
/// the id when present.
pub open spec fn chunk_map_url(
    base: Seq<char>,
    prefix: Seq<char>,
    sep: Seq<char>,
    m1: Seq<(Seq<char>, Seq<char>)>,
    m2: Seq<(Seq<char>, Seq<char>)>,
    id: Seq<char>,
) -> Option<Seq<char>> {
    match assoc_get(m2, id) {
        None => None,
        Some(second) => {
            let first = match assoc_get(m1, id) {
                Some(f) => f,
                None => id,
            };
            url_join_of(base, prefix + first + sep + second + ".js"@)
        },
    }
}

/// The URLs emitted for a list of ids, skipping ids without a second-map
/// entry and ids whose URL cannot be formed.
pub open spec fn chunk_map_urls_from(
    base: Seq<char>,
    prefix: Seq<char>,
    sep: Seq<char>,
    m1: Seq<(Seq<char>, Seq<char>)>,
    m2: Seq<(Seq<char>, Seq<char>)>,
    ids: Seq<Seq<char>>,
    i: int,
) -> Seq<Seq<char>>
    decreases ids.len() - i,
{
    if i < 0 || i >= ids.len() {
        Seq::empty()
    } else {
        match chunk_map_url(base, prefix, sep, m1, m2, ids[i]) {
            Some(u) => seq![u] + chunk_map_urls_from(base, prefix, sep, m1, m2, ids, i + 1),
            None => chunk_map_urls_from(base, prefix, sep, m1, m2, ids, i + 1),
        }
    }
}

/// Generate chunk URLs from the map info and the extracted chunk ids.
#[verifier::loop_isolation(false)]
pub fn generate_urls_from_chunk_maps(base: &str, maps: &ChunkMapInfo, chunk_ids: &Vec<String>) -> (r:
    Vec<String>)
    ensures
        r.deep_view() == chunk_map_urls_from(
            base@,
            maps.prefix@,
            maps.separator@,
            pairs_view(maps.map_first@),
            pairs_view(maps.map_second@),
            chunk_ids.deep_view(),
            0,
        ),
{
    proof {
        crate::scan::lemma_string_vec_deep_view(*chunk_ids);
    }
    let ghost ids = chunk_ids.deep_view();
    let ghost m1 = pairs_view(maps.map_first@);
    let ghost m2 = pairs_view(maps.map_second@);
    let mut out: Vec<String> = Vec::new();
    proof {
        assert(out.deep_view() =~= Seq::<Seq<char>>::empty());
    }
    let mut i: usize = 0;
    while i < chunk_ids.len()
        invariant
            0 <= i <= chunk_ids@.len(),
            ids == chunk_ids.deep_view(),
            m1 == pairs_view(maps.map_first@),
            m2 == pairs_view(maps.map_second@),
            out.deep_view() + chunk_map_urls_from(
                base@,
                maps.prefix@,
                maps.separator@,
                m1,
                m2,
                ids,
                i as int,
            ) == chunk_map_urls_from(base@, maps.prefix@, maps.separator@, m1, m2, ids, 0),
        decreases chunk_ids@.len() - i,
    {
        let ghost out0 = out;
        let id = &chunk_ids[i];
        if let Some(second) = map_get(&maps.map_second, id) {
            let first: String = match map_get(&maps.map_first, id) {
                Some(f) => f,
                None => id.clone(),
            };
            let mut path = maps.prefix.clone();
            path.append(first.as_str());
            path.append(maps.separator.as_str());
            path.append(second.as_str());
            path.append(".js");
            proof {
                assert(path@ =~= maps.prefix@ + first@ + maps.separator@ + second@ + ".js"@);
            }
            if let Some(u) = crate::urls::join_url(base, path.as_str()) {
                let ghost ug = u;
                out.push(u);
                proof {
                    crate::scan::lemma_string_vec_deep_view_push(out0, out, ug);
                    assert(out.deep_view() + chunk_map_urls_from(
                        base@,
                        maps.prefix@,
                        maps.separator@,
                        m1,
                        m2,
                        ids,
                        i + 1,
                    ) =~= out0.deep_view() + chunk_map_urls_from(
                        base@,
                        maps.prefix@,
                        maps.separator@,
                        m1,
                        m2,
                        ids,
                        i as int,
                    ));
                }
            }
        }
        i = i + 1;
    }
    proof {
        assert(out.deep_view() + chunk_map_urls_from(
            base@,
            maps.prefix@,
            maps.separator@,
            m1,
            m2,
            ids,
            i as int,
        ) =~= out.deep_view());
    }
    out
}

} // verus!
