//! Recovering the chunk filename template and public path from the text of a
//! Webpack runtime script.
//!
//! The analyzer recognizes three generated shapes of the chunk-URL helper
//! assigned to `__webpack_require__.u`, in priority order:
//!
//! - a classic function, `function (e) { … return "<prefix>" + e + "<suffix>"; }`
//!   (the first `return` after the opening brace is the one examined);
//! - an arrow, `(e) => "<prefix>" + e + "<suffix>";`;
//! - a template literal, ``function (e) { … return `<prefix>${e}<suffix>`; }``.
//!
//! Each shape yields the pair `(prefix, suffix)` such that the runtime builds
//! the chunk path `prefix + id + suffix`.

use vstd::prelude::*;

use crate::scan::CharClass;
use crate::scan::find_from;
use crate::scan::lit_at;
use crate::scan::find_lit;
use crate::scan::match_at;
use crate::scan::run_end;
use crate::scan::scan_while;
use crate::scan::take_range;
use crate::scan::to_chars;

verus! {

/// Represents the discovered pattern that Webpack uses to construct chunk
/// URLs: the chunk with id `i` lives at `prefix + i + suffix`.
#[derive(Debug, Clone, PartialEq, Eq)]
pub struct ChunkFilenameTemplate {
    pub prefix: String,
    pub suffix: String,
}

/// The path the runtime requests for chunk `id` under a template.
pub open spec fn template_path(prefix: Seq<char>, id: Seq<char>, suffix: Seq<char>) -> Seq<char> {
    prefix + id + suffix
}

/// The chunk-URL helper assignment target.
pub open spec fn u_lit() -> Seq<char> {
    "__webpack_require__.u"@
}

/// Position of the `=` after the assignment target at `i`.
pub open spec fn eq_pos(s: Seq<char>, i: int) -> int {
    run_end(s, i + u_lit().len(), CharClass::Ws)
}

/// Position where the assigned right-hand side starts.
pub open spec fn rhs_pos(s: Seq<char>, i: int) -> int {
    run_end(s, eq_pos(s, i) + 1, CharClass::Ws)
}

/// `__webpack_require__.u =` stands at `i`.
pub open spec fn u_assign_at(s: Seq<char>, i: int) -> bool {
    &&& match_at(s, u_lit(), i)
    &&& eq_pos(s, i) < s.len()
    &&& s[eq_pos(s, i)] == '='
}

/// `"<prefix>" + <expr> + "<suffix>";` stands at `q` (the opening quote).
/// The interpolated expression is the non-empty run up to the next `+`.
pub open spec fn quoted_pair_at(s: Seq<char>, q: int) -> bool {
    let p1 = run_end(s, q + 1, CharClass::NonDQuote);
    let plus1 = run_end(s, p1 + 1, CharClass::Ws);
    let e0 = run_end(s, plus1 + 1, CharClass::Ws);
    let e1 = run_end(s, e0, CharClass::NonPlus);
    let f = run_end(s, e1 + 1, CharClass::Ws);
    let f1 = run_end(s, f + 1, CharClass::NonDQuote);
    &&& 0 <= q
    &&& q < s.len()
    &&& s[q] == '"'
    &&& p1 < s.len()
    &&& plus1 < s.len()
    &&& s[plus1] == '+'
    &&& e0 < e1
    &&& e1 < s.len()
    &&& f < s.len()
    &&& s[f] == '"'
    &&& f1 + 2 <= s.len()
    &&& s[f1 + 1] == ';'
}

/// The prefix literal of a quoted pair at `q`.
pub open spec fn quoted_pair_prefix(s: Seq<char>, q: int) -> Seq<char> {
    s.subrange(q + 1, run_end(s, q + 1, CharClass::NonDQuote))
}

/// The suffix literal of a quoted pair at `q`.
pub open spec fn quoted_pair_suffix(s: Seq<char>, q: int) -> Seq<char> {
    let p1 = run_end(s, q + 1, CharClass::NonDQuote);
    let plus1 = run_end(s, p1 + 1, CharClass::Ws);
    let e0 = run_end(s, plus1 + 1, CharClass::Ws);
    let e1 = run_end(s, e0, CharClass::NonPlus);
    let f = run_end(s, e1 + 1, CharClass::Ws);
    s.subrange(f + 1, run_end(s, f + 1, CharClass::NonDQuote))
}

/// Position of the `{` opening the helper's body.
pub open spec fn fn_brace(s: Seq<char>, i: int) -> int {
    run_end(s, rhs_pos(s, i) + "function"@.len(), CharClass::NonOpenBrace)
}

/// The first `return` inside the helper's body.
pub open spec fn fn_return(s: Seq<char>, i: int) -> Option<int> {
    find_from(s, "return"@, fn_brace(s, i) + 1)
}

/// Start of the returned expression: after `return` and mandatory whitespace.
pub open spec fn fn_ret_expr(s: Seq<char>, i: int) -> int {
    run_end(s, fn_return(s, i).unwrap() + "return"@.len(), CharClass::Ws)
}

/// The helper body shape `function …{ … return` stands at `i`, with no `}`
/// before the `return`.
pub open spec fn fn_head_at(s: Seq<char>, i: int) -> bool {
    &&& u_assign_at(s, i)
    &&& match_at(s, "function"@, rhs_pos(s, i))
    &&& fn_brace(s, i) < s.len()
    &&& fn_return(s, i) is Some
    &&& fn_return(s, i).unwrap() <= run_end(s, fn_brace(s, i) + 1, CharClass::NonBrace)
    &&& fn_ret_expr(s, i) > fn_return(s, i).unwrap() + "return"@.len()
}

/// A classic-function helper stands at `i`.
pub open spec fn classic_at(s: Seq<char>, i: int) -> bool {
    &&& fn_head_at(s, i)
    &&& quoted_pair_at(s, fn_ret_expr(s, i))
}

/// An arrow helper stands at `i`.
pub open spec fn arrow_at(s: Seq<char>, i: int) -> bool {
    let k = rhs_pos(s, i);
    let c = run_end(s, k + 1, CharClass::NonCloseParen);
    let a0 = run_end(s, c + 1, CharClass::Ws);
    let a1 = run_end(s, a0 + 2, CharClass::Ws);
    &&& u_assign_at(s, i)
    &&& k < s.len()
    &&& s[k] == '('
    &&& c < s.len()
    &&& a0 + 2 <= s.len()
    &&& s[a0] == '='
    &&& s[a0 + 1] == '>'
    &&& quoted_pair_at(s, a1)
}

/// Where the quoted pair of an arrow helper at `i` starts.
pub open spec fn arrow_quote(s: Seq<char>, i: int) -> int {
    let k = rhs_pos(s, i);
    let c = run_end(s, k + 1, CharClass::NonCloseParen);
    let a0 = run_end(s, c + 1, CharClass::Ws);
    run_end(s, a0 + 2, CharClass::Ws)
}

/// A template-literal helper stands at `i`: `` return `<prefix>${<expr>}<suffix>`; ``.
pub open spec fn tmpl_at(s: Seq<char>, i: int) -> bool {
    let w = fn_ret_expr(s, i);
    let g = find_from(s, "${"@, w + 1);
    &&& fn_head_at(s, i)
    &&& w < s.len()
    &&& s[w] == '`'
    &&& g is Some
    &&& g.unwrap() <= run_end(s, w + 1, CharClass::NonBacktick)
    &&& tmpl_inner_end(s, i) > g.unwrap() + 2
    &&& tmpl_inner_end(s, i) < s.len()
    &&& tmpl_close(s, i) + 2 <= s.len()
    &&& s[tmpl_close(s, i) + 1] == ';'
}

/// Position of the `}` closing the interpolation of a template helper.
pub open spec fn tmpl_inner_end(s: Seq<char>, i: int) -> int {
    let w = fn_ret_expr(s, i);
    let g = find_from(s, "${"@, w + 1);
    run_end(s, g.unwrap() + 2, CharClass::NonBrace)
}

/// Position of the closing backtick of a template helper.
pub open spec fn tmpl_close(s: Seq<char>, i: int) -> int {
    run_end(s, tmpl_inner_end(s, i) + 1, CharClass::NonBacktick)
}

/// Prefix of a template helper at `i`.
pub open spec fn tmpl_prefix(s: Seq<char>, i: int) -> Seq<char> {
    let w = fn_ret_expr(s, i);
    let g = find_from(s, "${"@, w + 1);
    s.subrange(w + 1, g.unwrap())
}

/// Suffix of a template helper at `i`.
pub open spec fn tmpl_suffix(s: Seq<char>, i: int) -> Seq<char> {
    s.subrange(tmpl_inner_end(s, i) + 1, tmpl_close(s, i))
}

/// First classic-function helper at or after `i`.
pub open spec fn first_classic(s: Seq<char>, i: int) -> Option<(Seq<char>, Seq<char>)>
    decreases s.len() - i,
{
    if i < 0 || i >= s.len() {
        None
    } else if classic_at(s, i) {
        Some(
            (
                quoted_pair_prefix(s, fn_ret_expr(s, i)),
                quoted_pair_suffix(s, fn_ret_expr(s, i)),
            ),
        )
    } else {
        first_classic(s, i + 1)
    }
}

/// First arrow helper at or after `i`.
pub open spec fn first_arrow(s: Seq<char>, i: int) -> Option<(Seq<char>, Seq<char>)>
    decreases s.len() - i,
{
    if i < 0 || i >= s.len() {
        None
    } else if arrow_at(s, i) {
        Some((quoted_pair_prefix(s, arrow_quote(s, i)), quoted_pair_suffix(s, arrow_quote(s, i))))
    } else {
        first_arrow(s, i + 1)
    }
}

/// First template-literal helper at or after `i`.
pub open spec fn first_tmpl(s: Seq<char>, i: int) -> Option<(Seq<char>, Seq<char>)>
    decreases s.len() - i,
{
    if i < 0 || i >= s.len() {
        None
    } else if tmpl_at(s, i) {
        Some((tmpl_prefix(s, i), tmpl_suffix(s, i)))
    } else {
        first_tmpl(s, i + 1)
    }
}

/// The template the analyzer infers from a runtime text, trying the classic
/// shape first, then the arrow shape, then the template literal.
pub open spec fn chunk_template_of(s: Seq<char>) -> Option<(Seq<char>, Seq<char>)> {
    if first_classic(s, 0) is Some {
        first_classic(s, 0)
    } else if first_arrow(s, 0) is Some {
        first_arrow(s, 0)
    } else {
        first_tmpl(s, 0)
    }
}

/// Recognize `"<prefix>" + <expr> + "<suffix>";` at opening quote `q`.
#[verifier::loop_isolation(false)]
fn try_quoted_pair(js: &str, cs: &Vec<char>, q: usize) -> (r: Option<(String, String)>)
    requires
        cs@ == js@,
        q <= cs@.len(),
    ensures
        match r {
            Some(p) => quoted_pair_at(cs@, q as int) && p.0@ == quoted_pair_prefix(cs@, q as int)
                && p.1@ == quoted_pair_suffix(cs@, q as int),
            None => !quoted_pair_at(cs@, q as int),
        },
{
    if !(q < cs.len() && cs[q] == '"') {
        return None;
    }
    let p1 = scan_while(cs, q + 1, CharClass::NonDQuote);
    if p1 >= cs.len() {
        return None;
    }
    let plus1 = scan_while(cs, p1 + 1, CharClass::Ws);
    if !(plus1 < cs.len() && cs[plus1] == '+') {
        return None;
    }
    let e0 = scan_while(cs, plus1 + 1, CharClass::Ws);
    let e1 = scan_while(cs, e0, CharClass::NonPlus);
    if !(e0 < e1 && e1 < cs.len()) {
        return None;
    }
    let f = scan_while(cs, e1 + 1, CharClass::Ws);
    if !(f < cs.len() && cs[f] == '"') {
        return None;
    }
    let f1 = scan_while(cs, f + 1, CharClass::NonDQuote);
    if !(f1 < cs.len() && cs.len() - f1 >= 2 && cs[f1 + 1] == ';') {
        return None;
    }
    let prefix = take_range(js, q + 1, p1);
    let suffix = take_range(js, f + 1, f1);
    Some((prefix, suffix))
}

/// Recognize the `function …{ … return ` head at `i`; on success return the
/// position of the returned expression.
#[verifier::loop_isolation(false)]
fn try_fn_head(cs: &Vec<char>, i: usize, ul: &Vec<char>, fl: &Vec<char>, rl: &Vec<char>) -> (r:
    Option<usize>)
    requires
        ul@ == u_lit(),
        fl@ == "function"@,
        rl@ == "return"@,
        i < cs@.len(),
    ensures
        match r {
            Some(w) => fn_head_at(cs@, i as int) && w == fn_ret_expr(cs@, i as int) && w
                <= cs@.len(),
            None => !fn_head_at(cs@, i as int),
        },
{
    proof {
        reveal_strlit("return");
    }
    if i >= cs.len() || !lit_at(cs, i, ul) {
        return None;
    }
    let j = scan_while(cs, i + ul.len(), CharClass::Ws);
    if !(j < cs.len() && cs[j] == '=') {
        return None;
    }
    let k = scan_while(cs, j + 1, CharClass::Ws);
    if !lit_at(cs, k, fl) {
        return None;
    }
    let b = scan_while(cs, k + fl.len(), CharClass::NonOpenBrace);
    if b >= cs.len() {
        return None;
    }
    let ret = match find_lit(cs, b + 1, rl) {
        Some(m) => m,
        None => {
            return None;
        },
    };
    let brace_end = scan_while(cs, b + 1, CharClass::NonBrace);
    if ret > brace_end {
        return None;
    }
    let w = scan_while(cs, ret + rl.len(), CharClass::Ws);
    if w == ret + rl.len() {
        return None;
    }
    Some(w)
}

/// Recognize a classic-function helper at `i`.
#[verifier::loop_isolation(false)]
fn try_classic_at(
    js: &str,
    cs: &Vec<char>,
    i: usize,
    ul: &Vec<char>,
    fl: &Vec<char>,
    rl: &Vec<char>,
) -> (r: Option<(String, String)>)
    requires
        cs@ == js@,
        ul@ == u_lit(),
        fl@ == "function"@,
        rl@ == "return"@,
        i < cs@.len(),
    ensures
        match r {
            Some(p) => classic_at(cs@, i as int) && Some((p.0@, p.1@)) == first_classic(
                cs@,
                i as int,
            ),
            None => !classic_at(cs@, i as int),
        },
{
    let w = match try_fn_head(cs, i, ul, fl, rl) {
        Some(w) => w,
        None => {
            return None;
        },
    };
    try_quoted_pair(js, cs, w)
}

/// Recognize an arrow helper at `i`.
#[verifier::loop_isolation(false)]
fn try_arrow_at(js: &str, cs: &Vec<char>, i: usize, ul: &Vec<char>) -> (r: Option<
    (String, String),
>)
    requires
        cs@ == js@,
        ul@ == u_lit(),
        i < cs@.len(),
    ensures
        match r {
            Some(p) => arrow_at(cs@, i as int) && Some((p.0@, p.1@)) == first_arrow(cs@, i as int),
            None => !arrow_at(cs@, i as int),
        },
{
    if i >= cs.len() || !lit_at(cs, i, ul) {
        return None;
    }
    let j = scan_while(cs, i + ul.len(), CharClass::Ws);
    if !(j < cs.len() && cs[j] == '=') {
        return None;
    }
    let k = scan_while(cs, j + 1, CharClass::Ws);
    if !(k < cs.len() && cs[k] == '(') {
        return None;
    }
    let c = scan_while(cs, k + 1, CharClass::NonCloseParen);
    if c >= cs.len() {
        return None;
    }
    let a0 = scan_while(cs, c + 1, CharClass::Ws);
    if !(cs.len() - a0 >= 2 && cs[a0] == '=' && cs[a0 + 1] == '>') {
        return None;
    }
    let a1 = scan_while(cs, a0 + 2, CharClass::Ws);
    try_quoted_pair(js, cs, a1)
}

/// Recognize a template-literal helper at `i`.
#[verifier::loop_isolation(false)]
fn try_tmpl_at(
    js: &str,
    cs: &Vec<char>,
    i: usize,
    ul: &Vec<char>,
    fl: &Vec<char>,
    rl: &Vec<char>,
    il: &Vec<char>,
) -> (r: Option<(String, String)>)
    requires
        cs@ == js@,
        ul@ == u_lit(),
        fl@ == "function"@,
        rl@ == "return"@,
        il@ == "${"@,
        i < cs@.len(),
    ensures
        match r {
            Some(p) => tmpl_at(cs@, i as int) && Some((p.0@, p.1@)) == first_tmpl(cs@, i as int),
            None => !tmpl_at(cs@, i as int),
        },
{
    proof {
        reveal_strlit("${");
    }
    let w = match try_fn_head(cs, i, ul, fl, rl) {
        Some(w) => w,
        None => {
            return None;
        },
    };
    if !(w < cs.len() && cs[w] == '`') {
        return None;
    }
    let g = match find_lit(cs, w + 1, il) {
        Some(g) => g,
        None => {
            return None;
        },
    };
    let bt = scan_while(cs, w + 1, CharClass::NonBacktick);
    if g > bt {
        return None;
    }
    let h = scan_while(cs, g + 2, CharClass::NonBrace);
    if !(h > g + 2 && h < cs.len()) {
        return None;
    }
    let t1 = scan_while(cs, h + 1, CharClass::NonBacktick);
    if !(t1 < cs.len() && cs.len() - t1 >= 2 && cs[t1 + 1] == ';') {
        return None;
    }
    let prefix = take_range(js, w + 1, g);
    let suffix = take_range(js, h + 1, t1);
    Some((prefix, suffix))
}

/// Infer the prefix and suffix Webpack uses to build chunk URLs, scanning for
/// the classic, arrow, and template-literal helper shapes in that order.
#[verifier::loop_isolation(false)]
pub fn infer_chunk_filename_template(js: &str) -> (r: Option<ChunkFilenameTemplate>)
    ensures
        match r {
            Some(t) => chunk_template_of(js@) == Some((t.prefix@, t.suffix@)),
            None => chunk_template_of(js@) is None,
        },
{
    let cs = to_chars(js);
    let ul = to_chars("__webpack_require__.u");
    let fl = to_chars("function");
    let rl = to_chars("return");
    let il = to_chars("${");
    let mut i: usize = 0;
    while i < cs.len()
        invariant
            0 <= i <= cs@.len(),
            first_classic(cs@, 0) == first_classic(cs@, i as int),
        decreases cs@.len() - i,
    {
        if let Some((prefix, suffix)) = try_classic_at(js, &cs, i, &ul, &fl, &rl) {
            return Some(ChunkFilenameTemplate { prefix, suffix });
        }
        i = i + 1;
    }
    let mut i: usize = 0;
    while i < cs.len()
        invariant
            0 <= i <= cs@.len(),
            first_classic(cs@, 0) is None,
            first_arrow(cs@, 0) == first_arrow(cs@, i as int),
        decreases cs@.len() - i,
    {
        if let Some((prefix, suffix)) = try_arrow_at(js, &cs, i, &ul) {
            return Some(ChunkFilenameTemplate { prefix, suffix });
        }
        i = i + 1;
    }
    let mut i: usize = 0;
    while i < cs.len()
        invariant
            0 <= i <= cs@.len(),
            first_classic(cs@, 0) is None,
            first_arrow(cs@, 0) is None,
            first_tmpl(cs@, 0) == first_tmpl(cs@, i as int),
        decreases cs@.len() - i,
    {
        if let Some((prefix, suffix)) = try_tmpl_at(js, &cs, i, &ul, &fl, &rl, &il) {
            return Some(ChunkFilenameTemplate { prefix, suffix });
        }
        i = i + 1;
    }
    None
}

/// The URL a chunk id resolves to under a template: the template path
/// joined against the base when one is given, or parsed absolutely.
pub open spec fn built_chunk_url(
    base: Option<Seq<char>>,
    prefix: Seq<char>,
    suffix: Seq<char>,
    id: Seq<char>,
) -> Option<Seq<char>> {
    match base {
        Some(b) => crate::urls::url_join_of(b, template_path(prefix, id, suffix)),
        None => crate::urls::url_norm_of(template_path(prefix, id, suffix)),
    }
}

/// Build a full chunk URL from a base URL, the template, and a chunk id.
pub fn build_chunk_url(base: Option<&str>, template: &ChunkFilenameTemplate, chunk_id: &str) -> (r:
    Option<String>)
    ensures
        r.deep_view() == built_chunk_url(
            base.deep_view(),
            template.prefix@,
            template.suffix@,
            chunk_id@,
        ),
{
    let mut path = template.prefix.clone();
    path.append(chunk_id);
    path.append(template.suffix.as_str());
    proof {
        assert(path@ =~= template_path(template.prefix@, chunk_id@, template.suffix@));
    }
    match base {
        Some(b) => crate::urls::join_url(b, path.as_str()),
        None => crate::urls::parse_url(path.as_str()),
    }
}

/// The chunk URLs a template generates for a list of ids, skipping ids
/// whose URL cannot be formed.
pub open spec fn generated_urls(
    base: Option<Seq<char>>,
    prefix: Seq<char>,
    suffix: Seq<char>,
    ids: Seq<Seq<char>>,
    i: int,
) -> Seq<Seq<char>>
    decreases ids.len() - i,
{
    if i < 0 || i >= ids.len() {
        Seq::empty()
    } else {
        match built_chunk_url(base, prefix, suffix, ids[i]) {
            Some(u) => seq![u] + generated_urls(base, prefix, suffix, ids, i + 1),
            None => generated_urls(base, prefix, suffix, ids, i + 1),
        }
    }
}

/// Generate the full (unvalidated) chunk URLs for the extracted ids.
#[verifier::loop_isolation(false)]
pub fn generate_chunk_urls(
    base: Option<&str>,
    template: &ChunkFilenameTemplate,
    chunk_ids: &Vec<String>,
) -> (r: Vec<String>)
    ensures
        r.deep_view() == generated_urls(
            base.deep_view(),
            template.prefix@,
            template.suffix@,
            chunk_ids.deep_view(),
            0,
        ),
{
    proof {
        crate::scan::lemma_string_vec_deep_view(*chunk_ids);
    }
    let ghost ids = chunk_ids.deep_view();
    let ghost b = base.deep_view();
    let mut out: Vec<String> = Vec::new();
    proof {
        assert(out.deep_view() =~= Seq::<Seq<char>>::empty());
    }
    let mut i: usize = 0;
    while i < chunk_ids.len()
        invariant
            0 <= i <= chunk_ids@.len(),
            ids == chunk_ids.deep_view(),
            b == base.deep_view(),
            out.deep_view() + generated_urls(b, template.prefix@, template.suffix@, ids, i as int)
                == generated_urls(b, template.prefix@, template.suffix@, ids, 0),
        decreases chunk_ids@.len() - i,
    {
        let ghost out0 = out;
        if let Some(u) = build_chunk_url(base, template, chunk_ids[i].as_str()) {
            let ghost ug = u;
            out.push(u);
            proof {
                crate::scan::lemma_string_vec_deep_view_push(out0, out, ug);
                assert(out.deep_view() + generated_urls(
                    b,
                    template.prefix@,
                    template.suffix@,
                    ids,
                    i + 1,
                ) =~= out0.deep_view() + generated_urls(
                    b,
                    template.prefix@,
                    template.suffix@,
                    ids,
                    i as int,
                ));
            }
        }
        i = i + 1;
    }
    proof {
        assert(out.deep_view() + generated_urls(b, template.prefix@, template.suffix@, ids, i as int)
            =~= out.deep_view());
    }
    out
}

/// The canonical arrow-shaped runtime rendered from a template: the exact
/// text a bundler emits when its chunk helper is
/// `(e) => "<prefix>" + e + "<suffix>";`.
pub open spec fn arrow_runtime(prefix: Seq<char>, suffix: Seq<char>) -> Seq<char> {
    "__webpack_require__.u = (e) => \""@ + prefix + "\" + e + \""@ + suffix + "\";"@
}

/// Template inference round-trips on the arrow shape: for any prefix and
/// suffix free of quote characters, the runtime rendered from them is
/// recognized at its assignment and the inferred pair is exactly that
/// prefix and suffix — so `prefix + id + suffix` rebuilds the very path
/// the rendered runtime requests for chunk `id`.
pub proof fn lemma_infer_arrow_round_trip(prefix: Seq<char>, suffix: Seq<char>)
    requires
        forall|j: int| 0 <= j < prefix.len() ==> prefix[j] != '"',
        forall|j: int| 0 <= j < suffix.len() ==> suffix[j] != '"',
    ensures
        first_arrow(arrow_runtime(prefix, suffix), 0) == Some((prefix, suffix)),
{
    reveal_strlit("__webpack_require__.u = (e) => \"");
    reveal_strlit("\" + e + \"");
    reveal_strlit("\";");
    reveal_strlit("__webpack_require__.u");
    let a = "__webpack_require__.u = (e) => \""@;
    let b = "\" + e + \""@;
    let c = "\";"@;
    let r = arrow_runtime(prefix, suffix);
    let np = prefix.len() as int;
    let ns = suffix.len() as int;
    let qp = 32 + np;
    let qo = qp + 8;
    let qs = qo + 1 + ns;
    assert(a.len() == 32);
    assert(b.len() == 9);
    assert(c.len() == 2);
    assert(r.len() == 43 + np + ns);
    assert forall|j: int| 0 <= j < 32 implies r[j] == a[j] by {
        assert(r[j] == (a + prefix)[j]);
    }
    assert forall|j: int| 0 <= j < np implies r[32 + j] == prefix[j] by {
        assert(r[32 + j] == (a + prefix)[32 + j]);
    }
    assert forall|j: int| 0 <= j < 9 implies r[qp + j] == b[j] by {
        assert(r[qp + j] == (a + prefix + b)[qp + j]);
    }
    assert forall|j: int| 0 <= j < ns implies r[qo + 1 + j] == suffix[j] by {
        assert(r[qo + 1 + j] == (a + prefix + b + suffix)[qo + 1 + j]);
    }
    assert(r[qs] == c[0]);
    assert(r[qs + 1] == c[1]);
    // the assignment target and the `=`
    assert(match_at(r, u_lit(), 0)) by {
        assert(r.subrange(0, 21) =~= u_lit());
    }
    assert(eq_pos(r, 0) == 22) by {
        crate::scan::lemma_run_end_exact(r, 21, 22, CharClass::Ws);
    }
    assert(u_assign_at(r, 0));
    assert(rhs_pos(r, 0) == 24) by {
        crate::scan::lemma_run_end_exact(r, 23, 24, CharClass::Ws);
    }
    // the arrow head `(e) =>`
    assert(r[24] == '(');
    assert(run_end(r, 25, CharClass::NonCloseParen) == 26) by {
        crate::scan::lemma_run_end_exact(r, 25, 26, CharClass::NonCloseParen);
    }
    assert(run_end(r, 27, CharClass::Ws) == 28) by {
        crate::scan::lemma_run_end_exact(r, 27, 28, CharClass::Ws);
    }
    assert(r[28] == '=' && r[29] == '>');
    assert(run_end(r, 30, CharClass::Ws) == 31) by {
        crate::scan::lemma_run_end_exact(r, 30, 31, CharClass::Ws);
    }
    assert(arrow_quote(r, 0) == 31);
    // the quoted pair
    assert(r[31] == '"');
    assert(run_end(r, 32, CharClass::NonDQuote) == qp) by {
        crate::scan::lemma_run_end_exact(r, 32, qp, CharClass::NonDQuote);
    }
    assert(run_end(r, qp + 1, CharClass::Ws) == qp + 2) by {
        crate::scan::lemma_run_end_exact(r, qp + 1, qp + 2, CharClass::Ws);
    }
    assert(r[qp + 2] == '+');
    assert(run_end(r, qp + 3, CharClass::Ws) == qp + 4) by {
        crate::scan::lemma_run_end_exact(r, qp + 3, qp + 4, CharClass::Ws);
    }
    assert(run_end(r, qp + 4, CharClass::NonPlus) == qp + 6) by {
        crate::scan::lemma_run_end_exact(r, qp + 4, qp + 6, CharClass::NonPlus);
    }
    assert(run_end(r, qp + 7, CharClass::Ws) == qp + 8) by {
        crate::scan::lemma_run_end_exact(r, qp + 7, qp + 8, CharClass::Ws);
    }
    assert(r[qp + 8] == '"');
    assert(run_end(r, qo + 1, CharClass::NonDQuote) == qs) by {
        crate::scan::lemma_run_end_exact(r, qo + 1, qs, CharClass::NonDQuote);
    }
    assert(r[qs] == '"');
    assert(r[qs + 1] == ';');
    assert(quoted_pair_at(r, 31));
    assert(arrow_at(r, 0));
    assert(quoted_pair_prefix(r, 31) == prefix) by {
        assert(r.subrange(32, qp) =~= prefix);
    }
    assert(quoted_pair_suffix(r, 31) == suffix) by {
        assert(r.subrange(qo + 1, qs) =~= suffix);
    }
    assert(first_arrow(r, 0) == Some((prefix, suffix)));
}

/// The canonical classic-function runtime rendered from a template.
pub open spec fn classic_runtime(prefix: Seq<char>, suffix: Seq<char>) -> Seq<char> {
    "__webpack_require__.u = function(e) { return \""@ + prefix + "\" + e + \""@ + suffix
        + "\"; }"@
}

/// Template inference round-trips on the classic shape, and the classic
/// shape has the highest priority: for any prefix and suffix free of quote
/// characters, the analyzer's answer on the runtime rendered from them is
/// exactly that prefix and suffix — so `prefix + id + suffix` rebuilds the
/// very path the rendered runtime requests for chunk `id`.
pub proof fn lemma_infer_classic_round_trip(prefix: Seq<char>, suffix: Seq<char>)
    requires
        forall|j: int| 0 <= j < prefix.len() ==> prefix[j] != '"',
        forall|j: int| 0 <= j < suffix.len() ==> suffix[j] != '"',
    ensures
        chunk_template_of(classic_runtime(prefix, suffix)) == Some((prefix, suffix)),
{
    reveal_strlit("__webpack_require__.u = function(e) { return \"");
    reveal_strlit("\" + e + \"");
    reveal_strlit("\"; }");
    reveal_strlit("__webpack_require__.u");
    reveal_strlit("function");
    reveal_strlit("return");
    let a = "__webpack_require__.u = function(e) { return \""@;
    let b = "\" + e + \""@;
    let c = "\"; }"@;
    let r = classic_runtime(prefix, suffix);
    let np = prefix.len() as int;
    let ns = suffix.len() as int;
    let qp = 46 + np;
    let qo = qp + 8;
    let qs = qo + 1 + ns;
    assert(a.len() == 46);
    assert(b.len() == 9);
    assert(c.len() == 4);
    assert(r.len() == 59 + np + ns);
    assert forall|j: int| 0 <= j < 46 implies r[j] == a[j] by {
        assert(r[j] == (a + prefix)[j]);
    }
    assert forall|j: int| 0 <= j < np implies r[46 + j] == prefix[j] by {
        assert(r[46 + j] == (a + prefix)[46 + j]);
    }
    assert forall|j: int| 0 <= j < 9 implies r[qp + j] == b[j] by {
        assert(r[qp + j] == (a + prefix + b)[qp + j]);
    }
    assert forall|j: int| 0 <= j < ns implies r[qo + 1 + j] == suffix[j] by {
        assert(r[qo + 1 + j] == (a + prefix + b + suffix)[qo + 1 + j]);
    }
    assert(r[qs] == c[0]);
    assert(r[qs + 1] == c[1]);
    // the assignment target, the `=`, and the `function` head
    assert(match_at(r, u_lit(), 0)) by {
        assert(r.subrange(0, 21) =~= u_lit());
    }
    assert(eq_pos(r, 0) == 22) by {
        crate::scan::lemma_run_end_exact(r, 21, 22, CharClass::Ws);
    }
    assert(u_assign_at(r, 0));
    assert(rhs_pos(r, 0) == 24) by {
        crate::scan::lemma_run_end_exact(r, 23, 24, CharClass::Ws);
    }
    assert(match_at(r, "function"@, 24)) by {
        assert(r.subrange(24, 32) =~= "function"@);
    }
    // the brace and the first `return`
    assert(fn_brace(r, 0) == 36) by {
        crate::scan::lemma_run_end_exact(r, 32, 36, CharClass::NonOpenBrace);
    }
    assert(fn_return(r, 0) == Some(38int)) by {
        assert(!match_at(r, "return"@, 37)) by {
            assert(r.subrange(37, 43)[0] == r[37]);
        }
        assert(match_at(r, "return"@, 38)) by {
            assert(r.subrange(38, 44) =~= "return"@);
        }
        assert(find_from(r, "return"@, 38) == Some(38int));
        assert(find_from(r, "return"@, 37) == Some(38int));
    }
    assert(fn_return(r, 0).unwrap() <= run_end(r, 37, CharClass::NonBrace)) by {
        crate::scan::lemma_run_end_bounds(r, 38, CharClass::NonBrace);
    }
    assert(fn_ret_expr(r, 0) == 45) by {
        crate::scan::lemma_run_end_exact(r, 44, 45, CharClass::Ws);
    }
    assert(fn_head_at(r, 0));
    // the quoted pair
    assert(r[45] == '"');
    assert(run_end(r, 46, CharClass::NonDQuote) == qp) by {
        crate::scan::lemma_run_end_exact(r, 46, qp, CharClass::NonDQuote);
    }
    assert(run_end(r, qp + 1, CharClass::Ws) == qp + 2) by {
        crate::scan::lemma_run_end_exact(r, qp + 1, qp + 2, CharClass::Ws);
    }
    assert(r[qp + 2] == '+');
    assert(run_end(r, qp + 3, CharClass::Ws) == qp + 4) by {
        crate::scan::lemma_run_end_exact(r, qp + 3, qp + 4, CharClass::Ws);
    }
    assert(run_end(r, qp + 4, CharClass::NonPlus) == qp + 6) by {
        crate::scan::lemma_run_end_exact(r, qp + 4, qp + 6, CharClass::NonPlus);
    }
    assert(run_end(r, qp + 7, CharClass::Ws) == qp + 8) by {
        crate::scan::lemma_run_end_exact(r, qp + 7, qp + 8, CharClass::Ws);
    }
    assert(r[qp + 8] == '"');
    assert(run_end(r, qo + 1, CharClass::NonDQuote) == qs) by {
        crate::scan::lemma_run_end_exact(r, qo + 1, qs, CharClass::NonDQuote);
    }
    assert(r[qs] == '"');
    assert(r[qs + 1] == ';');
    assert(quoted_pair_at(r, 45));
    assert(classic_at(r, 0));
    assert(quoted_pair_prefix(r, 45) == prefix) by {
        assert(r.subrange(46, qp) =~= prefix);
    }
    assert(quoted_pair_suffix(r, 45) == suffix) by {
        assert(r.subrange(qo + 1, qs) =~= suffix);
    }
    assert(first_classic(r, 0) == Some((prefix, suffix)));
}

/// The canonical template-literal runtime rendered from a template.
pub open spec fn tmpl_runtime(prefix: Seq<char>, suffix: Seq<char>) -> Seq<char> {
    "__webpack_require__.u = function(e) { return `"@ + prefix + "${e}"@ + suffix + "`; }"@
}

/// Template inference round-trips on the template-literal shape: for any
/// prefix free of backticks and interpolation openers, and any suffix free
/// of backticks, the runtime rendered from them is recognized at its
/// assignment and yields exactly that prefix and suffix.
pub proof fn lemma_infer_tmpl_round_trip(prefix: Seq<char>, suffix: Seq<char>)
    requires
        forall|j: int| 0 <= j < prefix.len() ==> prefix[j] != '`',
        forall|j: int| 0 <= j < suffix.len() ==> suffix[j] != '`',
        forall|k: int| !match_at(prefix, "${"@, k),
    ensures
        first_tmpl(tmpl_runtime(prefix, suffix), 0) == Some((prefix, suffix)),
{
    reveal_strlit("__webpack_require__.u = function(e) { return `");
    reveal_strlit("${e}");
    reveal_strlit("`; }");
    reveal_strlit("__webpack_require__.u");
    reveal_strlit("function");
    reveal_strlit("return");
    reveal_strlit("${");
    let a = "__webpack_require__.u = function(e) { return `"@;
    let b = "${e}"@;
    let c = "`; }"@;
    let r = tmpl_runtime(prefix, suffix);
    let np = prefix.len() as int;
    let ns = suffix.len() as int;
    let g = 46 + np;
    let h = g + 3;
    let qe = h + 1 + ns;
    assert(a.len() == 46);
    assert(b.len() == 4);
    assert(c.len() == 4);
    assert(r.len() == 54 + np + ns);
    assert forall|j: int| 0 <= j < 46 implies r[j] == a[j] by {
        assert(r[j] == (a + prefix)[j]);
    }
    assert forall|j: int| 0 <= j < np implies r[46 + j] == prefix[j] by {
        assert(r[46 + j] == (a + prefix)[46 + j]);
    }
    assert forall|j: int| 0 <= j < 4 implies r[g + j] == b[j] by {
        assert(r[g + j] == (a + prefix + b)[g + j]);
    }
    assert forall|j: int| 0 <= j < ns implies r[h + 1 + j] == suffix[j] by {
        assert(r[h + 1 + j] == (a + prefix + b + suffix)[h + 1 + j]);
    }
    assert(r[qe] == c[0]);
    assert(r[qe + 1] == c[1]);
    // the assignment target, the `=`, and the `function` head
    assert(match_at(r, u_lit(), 0)) by {
        assert(r.subrange(0, 21) =~= u_lit());
    }
    assert(eq_pos(r, 0) == 22) by {
        crate::scan::lemma_run_end_exact(r, 21, 22, CharClass::Ws);
    }
    assert(u_assign_at(r, 0));
    assert(rhs_pos(r, 0) == 24) by {
        crate::scan::lemma_run_end_exact(r, 23, 24, CharClass::Ws);
    }
    assert(match_at(r, "function"@, 24)) by {
        assert(r.subrange(24, 32) =~= "function"@);
    }
    assert(fn_brace(r, 0) == 36) by {
        crate::scan::lemma_run_end_exact(r, 32, 36, CharClass::NonOpenBrace);
    }
    assert(fn_return(r, 0) == Some(38int)) by {
        assert(!match_at(r, "return"@, 37)) by {
            assert(r.subrange(37, 43)[0] == r[37]);
        }
        assert(match_at(r, "return"@, 38)) by {
            assert(r.subrange(38, 44) =~= "return"@);
        }
        assert(find_from(r, "return"@, 38) == Some(38int));
        assert(find_from(r, "return"@, 37) == Some(38int));
    }
    assert(fn_return(r, 0).unwrap() <= run_end(r, 37, CharClass::NonBrace)) by {
        crate::scan::lemma_run_end_bounds(r, 38, CharClass::NonBrace);
    }
    assert(fn_ret_expr(r, 0) == 45) by {
        crate::scan::lemma_run_end_exact(r, 44, 45, CharClass::Ws);
    }
    assert(fn_head_at(r, 0));
    // the backtick body
    assert(r[45] == '`');
    assert(find_from(r, "${"@, 46) == Some(g)) by {
        assert(match_at(r, "${"@, g)) by {
            assert(r.subrange(g, g + 2) =~= "${"@);
        }
        assert forall|k: int| 46 <= k < g implies !match_at(r, "${"@, k) by {
            if k < g - 1 {
                assert(!match_at(prefix, "${"@, k - 46));
                if match_at(r, "${"@, k) {
                    assert(r.subrange(k, k + 2)[0] == r[k]);
                    assert(r.subrange(k, k + 2)[1] == r[k + 1]);
                    assert(prefix.subrange(k - 46, k - 44) =~= "${"@);
                }
            } else {
                if match_at(r, "${"@, k) {
                    assert(r.subrange(k, k + 2)[1] == r[k + 1]);
                }
            }
        }
        lemma_find_first(r, "${"@, 46, g);
    }
    assert(run_end(r, 46, CharClass::NonBacktick) == qe) by {
        crate::scan::lemma_run_end_exact(r, 46, qe, CharClass::NonBacktick);
    }
    assert(tmpl_inner_end(r, 0) == g + 3) by {
        crate::scan::lemma_run_end_exact(r, g + 2, g + 3, CharClass::NonBrace);
    }
    assert(tmpl_close(r, 0) == qe) by {
        crate::scan::lemma_run_end_exact(r, h + 1, qe, CharClass::NonBacktick);
    }
    assert(r[qe + 1] == ';');
    assert(tmpl_at(r, 0));
    assert(tmpl_prefix(r, 0) == prefix) by {
        assert(r.subrange(46, g) =~= prefix);
    }
    assert(tmpl_suffix(r, 0) == suffix) by {
        assert(r.subrange(h + 1, qe) =~= suffix);
    }
    assert(first_tmpl(r, 0) == Some((prefix, suffix)));
}

/// A match at `e` with no match before it pins `find_from` down.
proof fn lemma_find_first(s: Seq<char>, pat: Seq<char>, i: int, e: int)
    requires
        0 <= i <= e,
        1 <= pat.len(),
        match_at(s, pat, e),
        forall|k: int| i <= k < e ==> !match_at(s, pat, k),
    ensures
        find_from(s, pat, i) == Some(e),
    decreases e - i,
{
    if i < e {
        lemma_find_first(s, pat, i + 1, e);
    }
}

/// The public path assignment target.
pub open spec fn p_lit() -> Seq<char> {
    "__webpack_require__.p"@
}

/// `__webpack_require__.p = "<value>";` stands at `i`.
pub open spec fn pp_at(s: Seq<char>, i: int) -> bool {
    let j = run_end(s, i + p_lit().len(), CharClass::Ws);
    let k = run_end(s, j + 1, CharClass::Ws);
    let v = run_end(s, k + 1, CharClass::NonDQuote);
    &&& match_at(s, p_lit(), i)
    &&& j < s.len()
    &&& s[j] == '='
    &&& k < s.len()
    &&& s[k] == '"'
    &&& v + 2 <= s.len()
    &&& s[v + 1] == ';'
}

/// The quoted value of a public path assignment at `i`.
pub open spec fn pp_value(s: Seq<char>, i: int) -> Seq<char> {
    let j = run_end(s, i + p_lit().len(), CharClass::Ws);
    let k = run_end(s, j + 1, CharClass::Ws);
    s.subrange(k + 1, run_end(s, k + 1, CharClass::NonDQuote))
}

/// The value of the first public path assignment at or after `i`, if any.
pub open spec fn first_pp(s: Seq<char>, i: int) -> Option<Seq<char>>
    decreases s.len() - i,
{
    if i < 0 || i >= s.len() {
        None
    } else if pp_at(s, i) {
        Some(pp_value(s, i))
    } else {
        first_pp(s, i + 1)
    }
}

/// The configured public path of a runtime text: the first assignment's
/// value, with an empty value treated as absent.
pub open spec fn public_path_of(s: Seq<char>) -> Option<Seq<char>> {
    match first_pp(s, 0) {
        Some(v) => if v.len() > 0 {
            Some(v)
        } else {
            None
        },
        None => None,
    }
}

/// Extract the configured public path, if present and non-empty.
#[verifier::loop_isolation(false)]
pub fn extract_public_path(js: &str) -> (r: Option<String>)
    ensures
        match r {
            Some(v) => public_path_of(js@) == Some(v@),
            None => public_path_of(js@) is None,
        },
{
    let cs = to_chars(js);
    let pl = to_chars("__webpack_require__.p");
    let mut i: usize = 0;
    while i < cs.len()
        invariant
            0 <= i <= cs@.len(),
            first_pp(cs@, 0) == first_pp(cs@, i as int),
        decreases cs@.len() - i,
    {
        if lit_at(&cs, i, &pl) {
            let j = scan_while(&cs, i + pl.len(), CharClass::Ws);
            if j < cs.len() && cs[j] == '=' {
                let k = scan_while(&cs, j + 1, CharClass::Ws);
                if k < cs.len() && cs[k] == '"' {
                    let v = scan_while(&cs, k + 1, CharClass::NonDQuote);
                    if v < cs.len() && cs.len() - v >= 2 && cs[v + 1] == ';' {
                        // the first assignment decides, whatever its value
                        if v == k + 1 {
                            return None;
                        }
                        let val = take_range(js, k + 1, v);
                        return Some(val);
                    }
                }
            }
        }
        i = i + 1;
    }
    None
}

} // verus!
