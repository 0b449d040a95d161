//! URL helpers around the analyzer: deriving a chunk base URL from the
//! runtime script's URL, and collecting `<script src=…>` references from an
//! HTML page.

use vstd::prelude::*;

use crate::scan::CharClass;
use crate::scan::find_from;
use crate::scan::find_lit;
use crate::scan::lit_at;
use crate::scan::match_at;
use crate::scan::rfind_from;
use crate::scan::rfind_lit;
use crate::scan::run_end;
use crate::scan::scan_while;
use crate::scan::take_range;
use crate::scan::to_chars;
use crate::urls::url_join_of;
use crate::urls::url_path_of;

verus! {

/// The base URL for chunk files, derived from the runtime script's URL and
/// the detected path prefix: everything up to the last occurrence of the
/// prefix in the runtime's path (with a trailing slash ensured), resolved
/// against the runtime URL; when the prefix does not occur, the origin
/// root; `None` when the runtime URL does not parse.
pub open spec fn derived_base(runtime: Seq<char>, prefix: Seq<char>) -> Option<Seq<char>> {
    match url_path_of(runtime) {
        None => None,
        Some(path) => match rfind_from(path, prefix, path.len() as int) {
            Some(idx) => {
                let bp = path.subrange(0, idx);
                let bp2 = if bp.len() > 0 && bp[bp.len() - 1] == '/' {
                    bp
                } else {
                    bp + "/"@
                };
                url_join_of(runtime, bp2)
            },
            None => url_join_of(runtime, "/"@),
        },
    }
}

/// Derive a base URL for chunk files from the runtime URL and the detected
/// prefix, so that `base + prefix` reproduces the runtime's directory
/// structure; fall back to the origin root when the prefix is absent.
#[verifier::loop_isolation(false)]
pub fn derive_base_from_runtime(runtime_url: &str, prefix: &str) -> (r: Option<String>)
    ensures
        r.deep_view() == derived_base(runtime_url@, prefix@),
{
    let path = match crate::urls::url_path(runtime_url) {
        Some(p) => p,
        None => {
            return None;
        },
    };
    let pcs = to_chars(path.as_str());
    let pf = to_chars(prefix);
    let idx = if pf.len() == 0 {
        None
    } else {
        rfind_lit(&pcs, &pf)
    };
    match idx {
        Some(idx) => {
            let bp = take_range(path.as_str(), 0, idx);
            let bcs = to_chars(bp.as_str());
            if bcs.len() > 0 && bcs[bcs.len() - 1] == '/' {
                crate::urls::join_url(runtime_url, bp.as_str())
            } else {
                let mut b2 = bp;
                b2.append("/");
                crate::urls::join_url(runtime_url, b2.as_str())
            }
        },
        None => crate::urls::join_url(runtime_url, "/"),
    }
}

/// The `<script` tag lead.
pub open spec fn st_lit() -> Seq<char> {
    "<script"@
}

/// The first `src=` followed by a quote, at or after `j`.
pub open spec fn src_attr_from(s: Seq<char>, j: int) -> Option<int>
    decreases s.len() - j,
{
    if j < 0 || j >= s.len() {
        None
    } else if match_at(s, "src="@, j) && j + "src="@.len() < s.len() && (s[j + "src="@.len()]
        == '"' || s[j + "src="@.len()] == '\'') {
        Some(j)
    } else {
        src_attr_from(s, j + 1)
    }
}

/// Where the quoted `src` value of a script tag at `i` starts.
pub open spec fn script_val_start(s: Seq<char>, i: int) -> int {
    src_attr_from(s, i + st_lit().len()).unwrap() + "src="@.len() + 1
}

/// Where that value ends: at the next quote of either kind.
pub open spec fn script_val_end(s: Seq<char>, i: int) -> int {
    run_end(s, script_val_start(s, i), CharClass::NonAnyQuote)
}

/// A `<script … src="…​.js…"` tag stands at `i`: the `src=` attribute comes
/// before the tag closes, and its value mentions `.js` after at least one
/// character.
pub open spec fn script_at(s: Seq<char>, i: int) -> bool {
    let sa = src_attr_from(s, i + st_lit().len());
    &&& match_at(s, st_lit(), i)
    &&& sa is Some
    &&& i + st_lit().len() <= sa.unwrap()
    &&& sa.unwrap() <= run_end(s, i + st_lit().len(), CharClass::NonGt)
    &&& script_val_start(s, i) < script_val_end(s, i)
    &&& script_val_end(s, i) < s.len()
    &&& match find_from(s, ".js"@, script_val_start(s, i) + 1) {
        Some(k) => k + ".js"@.len() <= script_val_end(s, i),
        None => false,
    }
}

/// The `src` value of a script tag at `i`.
pub open spec fn script_value(s: Seq<char>, i: int) -> Seq<char> {
    s.subrange(script_val_start(s, i), script_val_end(s, i))
}

/// All script `src` values in the page at or after `i`, leftmost first.
pub open spec fn scan_scripts(s: Seq<char>, i: int) -> Seq<Seq<char>>
    decreases s.len() - i,
{
    if i < 0 || i >= s.len() {
        Seq::empty()
    } else if script_at(s, i) {
        seq![script_value(s, i)] + scan_scripts(s, script_val_end(s, i) + 1)
    } else {
        scan_scripts(s, i + 1)
    }
}

/// The script references resolved against the page URL, skipping those the
/// base cannot resolve.
pub open spec fn joined_from(base: Seq<char>, srcs: Seq<Seq<char>>, i: int) -> Seq<Seq<char>>
    decreases srcs.len() - i,
{
    if i < 0 || i >= srcs.len() {
        Seq::empty()
    } else {
        match url_join_of(base, srcs[i]) {
            Some(u) => seq![u] + joined_from(base, srcs, i + 1),
            None => joined_from(base, srcs, i + 1),
        }
    }
}

/// The script URLs of a page, in document order.
pub open spec fn script_urls_of(base: Seq<char>, html: Seq<char>) -> Seq<Seq<char>> {
    joined_from(base, scan_scripts(html, 0), 0)
}

/// Find the first `src=` attribute followed by a quote, at or after `from`.
#[verifier::loop_isolation(false)]
fn find_src_attr(cs: &Vec<char>, from: usize, srl: &Vec<char>) -> (r: Option<usize>)
    requires
        srl@ == "src="@,
        from <= cs@.len(),
    ensures
        match r {
            Some(j) => from <= j && Some(j as int) == src_attr_from(cs@, from as int) && j
                + srl@.len() < cs@.len(),
            None => src_attr_from(cs@, from as int) is None,
        },
{
    let mut j = from;
    while j < cs.len()
        invariant
            from <= j <= cs@.len(),
            src_attr_from(cs@, from as int) == src_attr_from(cs@, j as int),
        decreases cs@.len() - j,
    {
        if lit_at(cs, j, srl) && j + srl.len() < cs.len() && (cs[j + srl.len()] == '"' || cs[j
            + srl.len()] == '\'') {
            return Some(j);
        }
        j = j + 1;
    }
    None
}

/// Try to recognize a script tag with a `.js` source at `i`.
#[verifier::loop_isolation(false)]
fn try_script_at(
    html: &str,
    cs: &Vec<char>,
    i: usize,
    stl: &Vec<char>,
    srl: &Vec<char>,
    jsl: &Vec<char>,
) -> (r: Option<(String, usize)>)
    requires
        cs@ == html@,
        stl@ == st_lit(),
        srl@ == "src="@,
        jsl@ == ".js"@,
        i < cs@.len(),
    ensures
        match r {
            Some(p) => {
                &&& script_at(cs@, i as int)
                &&& p.0@ == script_value(cs@, i as int)
                &&& p.1 == script_val_end(cs@, i as int) + 1
                &&& i < p.1 <= cs@.len()
            },
            None => !script_at(cs@, i as int),
        },
{
    proof {
        reveal_strlit(".js");
    }
    if i >= cs.len() || !lit_at(cs, i, stl) {
        return None;
    }
    let start = i + stl.len();
    let sa: usize = match find_src_attr(cs, start, srl) {
        Some(sa) => sa,
        None => {
            return None;
        },
    };
    let gt = scan_while(cs, start, CharClass::NonGt);
    if sa > gt {
        return None;
    }
    let v0 = sa + srl.len() + 1;
    let v1 = scan_while(cs, v0, CharClass::NonAnyQuote);
    if v1 >= cs.len() {
        return None;
    }
    match find_lit(cs, v0 + 1, jsl) {
        Some(k) => {
            if k + jsl.len() > v1 {
                return None;
            }
        },
        None => {
            return None;
        },
    }
    let val = take_range(html, v0, v1);
    Some((val, v1 + 1))
}

/// Extract the script URLs of an HTML page, resolved against the page URL,
/// in document order.
#[verifier::loop_isolation(false)]
pub fn extract_script_urls(html: &str, base: &str) -> (r: Vec<String>)
    ensures
        r.deep_view() == script_urls_of(base@, html@),
{
    let cs = to_chars(html);
    let stl = to_chars("<script");
    let srl = to_chars("src=");
    let jsl = to_chars(".js");
    let mut srcs: Vec<String> = Vec::new();
    let mut i: usize = 0;
    while i < cs.len()
        invariant
            0 <= i <= cs@.len(),
            srcs.deep_view() + scan_scripts(cs@, i as int) == scan_scripts(cs@, 0),
        decreases cs@.len() - i,
    {
        let ghost srcs0 = srcs;
        let ghost i0 = i as int;
        if let Some((val, e)) = try_script_at(html, &cs, i, &stl, &srl, &jsl) {
            let ghost valg = val;
            srcs.push(val);
            i = e;
            proof {
                crate::scan::lemma_string_vec_deep_view_push(srcs0, srcs, valg);
                assert(srcs.deep_view() + scan_scripts(cs@, i as int) =~= srcs0.deep_view()
                    + scan_scripts(cs@, i0));
            }
        } else {
            i = i + 1;
        }
    }
    proof {
        assert(srcs.deep_view() + scan_scripts(cs@, i as int) =~= srcs.deep_view());
    }
    let ghost ss = srcs.deep_view();
    let mut out: Vec<String> = Vec::new();
    proof {
        assert(out.deep_view() =~= Seq::<Seq<char>>::empty());
    }
    let mut j: usize = 0;
    while j < srcs.len()
        invariant
            0 <= j <= srcs@.len(),
            ss == srcs.deep_view(),
            out.deep_view() + joined_from(base@, ss, j as int) == joined_from(base@, ss, 0),
        decreases srcs@.len() - j,
    {
        let ghost out0 = out;
        proof {
            crate::scan::lemma_string_vec_deep_view(srcs);
        }
        if let Some(u) = crate::urls::join_url(base, srcs[j].as_str()) {
            let ghost ug = u;
            out.push(u);
            proof {
                crate::scan::lemma_string_vec_deep_view_push(out0, out, ug);
                assert(out.deep_view() + joined_from(base@, ss, j + 1) =~= out0.deep_view()
                    + joined_from(base@, ss, j as int));
            }
        }
        j = j + 1;
    }
    proof {
        assert(out.deep_view() + joined_from(base@, ss, j as int) =~= out.deep_view());
    }
    out
}

/// The path of a URL names the Webpack runtime script: its final segment,
/// preceded by a `/`, starts with `webpack-`, ends with `.js`, and has at
/// least one character between the two.
pub open spec fn webpack_runtime_path(p: Seq<char>) -> bool {
    let st = crate::file_checks::seg_start(p, p.len() as int);
    &&& st >= 1
    &&& match_at(p, "webpack-"@, st)
    &&& p.len() >= ".js"@.len()
    &&& match_at(p, ".js"@, p.len() - ".js"@.len())
    &&& st + "webpack-"@.len() + ".js"@.len() < p.len()
}

/// Does a script URL path name the Webpack runtime, `…/webpack-<hash>.js`?
#[verifier::loop_isolation(false)]
pub fn is_webpack_runtime_path(path: &str) -> (r: bool)
    ensures
        r == webpack_runtime_path(path@),
{
    let cs = to_chars(path);
    let wl = to_chars("webpack-");
    let jl = to_chars(".js");
    let n = cs.len();
    let mut j = n;
    while j > 0 && cs[j - 1] != '/'
        invariant
            0 <= j <= n,
            n == cs@.len(),
            crate::file_checks::seg_start(cs@, n as int) == crate::file_checks::seg_start(
                cs@,
                j as int,
            ),
        decreases j,
    {
        j = j - 1;
    }
    let st = j;
    st >= 1 && lit_at(&cs, st, &wl) && n >= jl.len() && lit_at(&cs, n - jl.len(), &jl) && n
        - jl.len() > st + wl.len()
}

/// The string ends in `.js`.
pub open spec fn ends_with_js(p: Seq<char>) -> bool {
    p.len() >= ".js"@.len() && match_at(p, ".js"@, p.len() - ".js"@.len())
}

/// The chunk URLs a build manifest yields: its `.js` asset paths resolved
/// against the base, deduplicated keeping first occurrences, from index
/// `i` on and skipping what `seen` already holds.
pub open spec fn manifest_urls_from(
    base: Seq<char>,
    ps: Seq<Seq<char>>,
    i: int,
    seen: Seq<Seq<char>>,
) -> Seq<Seq<char>>
    decreases ps.len() - i,
{
    if i < 0 || i >= ps.len() {
        Seq::empty()
    } else if !ends_with_js(ps[i]) {
        manifest_urls_from(base, ps, i + 1, seen)
    } else {
        match url_join_of(base, ps[i]) {
            None => manifest_urls_from(base, ps, i + 1, seen),
            Some(u) => if seen.contains(u) {
                manifest_urls_from(base, ps, i + 1, seen)
            } else {
                seq![u] + manifest_urls_from(base, ps, i + 1, seen.push(u))
            },
        }
    }
}

/// The chunk URLs a build manifest yields against a base URL.
pub open spec fn manifest_urls_of(base: Seq<char>, ps: Seq<Seq<char>>) -> Seq<Seq<char>> {
    manifest_urls_from(base, ps, 0, Seq::empty())
}

/// Resolve a build manifest's `.js` asset paths against the chunk base
/// URL, deduplicated keeping first occurrences, in manifest order.
#[verifier::loop_isolation(false)]
pub fn manifest_chunk_urls(base: &str, paths: &Vec<String>) -> (r: Vec<String>)
    ensures
        r.deep_view() == manifest_urls_of(base@, paths.deep_view()),
{
    proof {
        crate::scan::lemma_string_vec_deep_view(*paths);
    }
    let ghost ps = paths.deep_view();
    let jl = to_chars(".js");
    let mut out: Vec<String> = Vec::new();
    proof {
        assert(out.deep_view() =~= Seq::<Seq<char>>::empty());
    }
    let mut i: usize = 0;
    while i < paths.len()
        invariant
            0 <= i <= paths@.len(),
            ps == paths.deep_view(),
            jl@ == ".js"@,
            manifest_urls_of(base@, ps) == out.deep_view() + manifest_urls_from(
                base@,
                ps,
                i as int,
                out.deep_view(),
            ),
        decreases paths@.len() - i,
    {
        let ghost out0 = out;
        let p = &paths[i];
        let cs = to_chars(p.as_str());
        if cs.len() >= jl.len() && lit_at(&cs, cs.len() - jl.len(), &jl) {
            if let Some(u) = crate::urls::join_url(base, p.as_str()) {
                if !crate::scan::contains_string(&out, &u) {
                    let ghost ug = u;
                    out.push(u);
                    proof {
                        crate::scan::lemma_string_vec_deep_view_push(out0, out, ug);
                        assert(out.deep_view() + manifest_urls_from(base@, ps, i + 1, out.deep_view())
                            =~= out0.deep_view() + (seq![ug@] + manifest_urls_from(
                            base@,
                            ps,
                            i + 1,
                            out0.deep_view().push(ug@),
                        )));
                    }
                }
            }
        }
        i = i + 1;
    }
    proof {
        assert(out.deep_view() + manifest_urls_from(base@, ps, i as int, out.deep_view())
            =~= out.deep_view());
    }
    out
}

} // verus!
