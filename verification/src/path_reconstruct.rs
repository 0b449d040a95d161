//! Reconstructing on-disk paths for the sources of a source map.
//!
//! Each virtual source URL is normalized in order: a `sourceRoot` prefix is
//! stripped, a `webpack://` scheme plus its namespace segment is removed, a
//! single leading `./` is dropped, the `sourceRoot` is re-applied to relative
//! results, and finally the string is split on `/` with empty and `.`
//! segments folded away and `..` clamped so that the joined path can never
//! escape the output root.

use vstd::prelude::*;

use crate::scan::CharClass;
use crate::scan::is_prefix;
use crate::scan::lemma_prefix_trans;
use crate::scan::lit_at;
use crate::scan::run_end;
use crate::scan::scan_while;
use crate::scan::take_range;
use crate::scan::to_chars;
use crate::sm_parse::SourceMapData;

verus! {

/// The virtual scheme bundlers put in front of source paths.
pub open spec fn wp_lit() -> Seq<char> {
    "webpack://"@
}

/// Strip a leading `sourceRoot` from a source, when present.
pub open spec fn strip_root(root: Seq<char>, s: Seq<char>) -> Seq<char> {
    if root.len() > 0 && is_prefix(root, s) {
        s.subrange(root.len() as int, s.len() as int)
    } else {
        s
    }
}

/// Strip the `webpack://` scheme and the namespace segment after it: the
/// remainder after the first `/` that follows the scheme, or everything
/// after the scheme when no `/` follows.
pub open spec fn strip_webpack(s: Seq<char>) -> Seq<char> {
    if is_prefix(wp_lit(), s) {
        let sl = run_end(s, wp_lit().len() as int, CharClass::NonSlash);
        if sl < s.len() {
            s.subrange(sl + 1, s.len() as int)
        } else {
            s.subrange(wp_lit().len() as int, s.len() as int)
        }
    } else {
        s
    }
}

/// Strip a single leading `./`.
pub open spec fn strip_dot(s: Seq<char>) -> Seq<char> {
    if is_prefix("./"@, s) {
        s.subrange("./"@.len() as int, s.len() as int)
    } else {
        s
    }
}

/// Re-apply the `sourceRoot` to a relative source, with exactly one
/// separator between them.
pub open spec fn prepend_root(root: Seq<char>, s: Seq<char>) -> Seq<char> {
    if root.len() > 0 && !(s.len() > 0 && s[0] == '/') {
        if root[root.len() - 1] == '/' {
            root + s
        } else {
            root + "/"@ + s
        }
    } else {
        s
    }
}

/// A source after the string-level normalization steps.
pub open spec fn normalized_source(root: Seq<char>, s: Seq<char>) -> Seq<char> {
    prepend_root(root, strip_dot(strip_webpack(strip_root(root, s))))
}

/// Fold one segment into the stack: empty and `.` segments vanish, `..`
/// pops the previous segment (and is dropped at the top, clamping the path
/// to the root), anything else is kept.
pub open spec fn apply_seg(acc: Seq<Seq<char>>, seg: Seq<char>) -> Seq<Seq<char>> {
    if seg.len() == 0 || seg == "."@ {
        acc
    } else if seg == ".."@ {
        if acc.len() > 0 {
            acc.drop_last()
        } else {
            acc
        }
    } else {
        acc.push(seg)
    }
}

/// Split `s` on `/` from position `i`, folding segments as they close;
/// `cur` is the open segment and `acc` the stack built so far.
pub open spec fn fold_from(s: Seq<char>, i: int, cur: Seq<char>, acc: Seq<Seq<char>>) -> Seq<
    Seq<char>,
>
    decreases s.len() - i,
{
    if i < 0 || i >= s.len() {
        apply_seg(acc, cur)
    } else if s[i] == '/' {
        fold_from(s, i + 1, Seq::empty(), apply_seg(acc, cur))
    } else {
        fold_from(s, i + 1, cur.push(s[i]), acc)
    }
}

/// The clean segments of a normalized source.
pub open spec fn path_segments(s: Seq<char>) -> Seq<Seq<char>> {
    fold_from(s, 0, Seq::empty(), Seq::empty())
}

/// Append one segment under a base path, with exactly one separator.
pub open spec fn step_path(b: Seq<char>, seg: Seq<char>) -> Seq<char> {
    if b.len() > 0 && b[b.len() - 1] == '/' {
        b + seg
    } else {
        b + "/"@ + seg
    }
}

/// Join the segments from index `i` on under the base path `b`.
pub open spec fn join_under(b: Seq<char>, segs: Seq<Seq<char>>, i: int) -> Seq<char>
    decreases segs.len() - i,
{
    if i < 0 || i >= segs.len() {
        b
    } else {
        join_under(step_path(b, segs[i]), segs, i + 1)
    }
}

/// The reconstructed on-disk path for one source.
pub open spec fn reconstructed_path(base: Seq<char>, root: Seq<char>, src: Seq<char>) -> Seq<
    char,
> {
    join_under(base, path_segments(normalized_source(root, src)), 0)
}

/// The `sourceRoot` as a plain string: absent means empty.
pub open spec fn root_seq(root: Option<Seq<char>>) -> Seq<char> {
    match root {
        Some(r) => r,
        None => Seq::empty(),
    }
}

/// The reconstructed paths for the sources from index `i` on; absent and
/// empty sources are dropped.
pub open spec fn recon_from(
    base: Seq<char>,
    root: Seq<char>,
    ss: Seq<Option<Seq<char>>>,
    i: int,
) -> Seq<Seq<char>>
    decreases ss.len() - i,
{
    if i < 0 || i >= ss.len() {
        Seq::empty()
    } else {
        match ss[i] {
            Some(src) => if src.len() > 0 {
                seq![reconstructed_path(base, root, src)] + recon_from(base, root, ss, i + 1)
            } else {
                recon_from(base, root, ss, i + 1)
            },
            None => recon_from(base, root, ss, i + 1),
        }
    }
}

/// The reconstructed paths of a whole map, one per present source, in order.
pub open spec fn reconstructed_paths(
    base: Seq<char>,
    root: Option<Seq<char>>,
    ss: Seq<Option<Seq<char>>>,
) -> Seq<Seq<char>> {
    recon_from(base, root_seq(root), ss, 0)
}

/// A base path is a prefix of one more appended segment.
proof fn lemma_step_path_prefix(b: Seq<char>, seg: Seq<char>)
    ensures
        is_prefix(b, step_path(b, seg)),
{
    if b.len() > 0 && b[b.len() - 1] == '/' {
        assert((b + seg).subrange(0, b.len() as int) =~= b);
    } else {
        assert((b + "/"@ + seg).subrange(0, b.len() as int) =~= b);
    }
}

/// Joining segments under a base keeps the base as a prefix: the sandbox
/// property of path reconstruction.
pub proof fn lemma_join_under_prefix(b: Seq<char>, segs: Seq<Seq<char>>, i: int)
    ensures
        is_prefix(b, join_under(b, segs, i)),
    decreases segs.len() - i,
{
    if i < 0 || i >= segs.len() {
        assert(b.subrange(0, b.len() as int) =~= b);
    } else {
        let sp = step_path(b, segs[i]);
        lemma_step_path_prefix(b, segs[i]);
        lemma_join_under_prefix(sp, segs, i + 1);
        lemma_prefix_trans(b, sp, join_under(sp, segs, i + 1));
    }
}

/// Every reconstructed path lies under the output root.
pub proof fn lemma_reconstruct_sandboxes(base: Seq<char>, root: Seq<char>, src: Seq<char>)
    ensures
        is_prefix(base, reconstructed_path(base, root, src)),
{
    lemma_join_under_prefix(base, path_segments(normalized_source(root, src)), 0);
}

/// Normalize one source string (everything but the final join).
#[verifier::loop_isolation(false)]
fn normalize_source(root: &str, src: &str) -> (r: String)
    ensures
        r@ == normalized_source(root@, src@),
{
    let cs_root = to_chars(root);
    let cs_src = to_chars(src);
    // step 1: strip a sourceRoot prefix
    let s1: String = if cs_root.len() > 0 && lit_at(&cs_src, 0, &cs_root) {
        take_range(src, cs_root.len(), cs_src.len())
    } else {
        src.to_owned()
    };
    // step 2: strip the webpack:// scheme and its namespace segment
    let wl = to_chars("webpack://");
    let cs1 = to_chars(s1.as_str());
    let s2: String = if lit_at(&cs1, 0, &wl) {
        let sl = scan_while(&cs1, wl.len(), CharClass::NonSlash);
        if sl < cs1.len() {
            take_range(s1.as_str(), sl + 1, cs1.len())
        } else {
            take_range(s1.as_str(), wl.len(), cs1.len())
        }
    } else {
        s1
    };
    // step 3: strip a single leading ./
    let dl = to_chars("./");
    let cs2 = to_chars(s2.as_str());
    let s3: String = if lit_at(&cs2, 0, &dl) {
        take_range(s2.as_str(), dl.len(), cs2.len())
    } else {
        s2
    };
    // step 4: re-apply the sourceRoot to relative results
    let cs3 = to_chars(s3.as_str());
    if cs_root.len() > 0 && !(cs3.len() > 0 && cs3[0] == '/') {
        let mut out = String::new();
        out.append(root);
        if cs_root[cs_root.len() - 1] != '/' {
            out.append("/");
        }
        out.append(s3.as_str());
        proof {
            if root@[root@.len() - 1] == '/' {
                assert(out@ =~= root@ + s3@);
            } else {
                assert(out@ =~= root@ + "/"@ + s3@);
            }
        }
        out
    } else {
        s3
    }
}

/// Split a normalized source into clean segments.
#[verifier::loop_isolation(false)]
fn split_segments(s: &str) -> (r: Vec<String>)
    ensures
        r.deep_view() == path_segments(s@),
{
    let cs = to_chars(s);
    let dot: String = ".".to_owned();
    let dotdot: String = "..".to_owned();
    let mut segs: Vec<String> = Vec::new();
    let mut st: usize = 0;
    let mut i: usize = 0;
    proof {
        assert(cs@.subrange(0, 0) =~= Seq::<char>::empty());
        assert(segs.deep_view() =~= Seq::<Seq<char>>::empty());
    }
    while i < cs.len()
        invariant
            0 <= st <= i <= cs@.len(),
            dot@ == "."@,
            dotdot@ == ".."@,
            path_segments(cs@) == fold_from(
                cs@,
                i as int,
                cs@.subrange(st as int, i as int),
                segs.deep_view(),
            ),
        decreases cs@.len() - i,
    {
        if cs[i] == '/' {
            let seg = take_range(s, st, i);
            let ghost segs0 = segs;
            let ghost segg = seg;
            if seg.unicode_len() == 0 || seg == dot {
                // folded away
            } else if seg == dotdot {
                if segs.len() > 0 {
                    segs.pop();
                    proof {
                        crate::scan::lemma_string_vec_deep_view_pop(segs0, segs);
                    }
                }
            } else {
                segs.push(seg);
                proof {
                    crate::scan::lemma_string_vec_deep_view_push(segs0, segs, segg);
                }
            }
            proof {
                assert(segs.deep_view() == apply_seg(segs0.deep_view(), segg@));
            }
            st = i + 1;
            i = i + 1;
            proof {
                assert(cs@.subrange(st as int, i as int) =~= Seq::<char>::empty());
            }
        } else {
            i = i + 1;
            proof {
                assert(cs@.subrange(st as int, i as int) =~= cs@.subrange(
                    st as int,
                    i - 1,
                ).push(cs@[i - 1]));
            }
        }
    }
    // close the final segment
    let seg = take_range(s, st, i);
    let ghost segs0 = segs;
    let ghost segg = seg;
    if seg.unicode_len() == 0 || seg == dot {
    } else if seg == dotdot {
        if segs.len() > 0 {
            segs.pop();
            proof {
                crate::scan::lemma_string_vec_deep_view_pop(segs0, segs);
            }
        }
    } else {
        segs.push(seg);
        proof {
            crate::scan::lemma_string_vec_deep_view_push(segs0, segs, segg);
        }
    }
    proof {
        assert(segs.deep_view() == apply_seg(segs0.deep_view(), segg@));
    }
    segs
}

/// Join clean segments under the output root.
#[verifier::loop_isolation(false)]
fn join_segments(base_dir: &str, segs: &Vec<String>) -> (r: String)
    ensures
        r@ == join_under(base_dir@, segs.deep_view(), 0),
{
    proof {
        crate::scan::lemma_string_vec_deep_view(*segs);
    }
    let mut out = String::new();
    out.append(base_dir);
    proof {
        assert(out@ =~= base_dir@);
    }
    let mut j: usize = 0;
    while j < segs.len()
        invariant
            0 <= j <= segs@.len(),
            join_under(base_dir@, segs.deep_view(), 0) == join_under(
                out@,
                segs.deep_view(),
                j as int,
            ),
        decreases segs@.len() - j,
    {
        let ghost out0 = out@;
        let n = out.as_str().unicode_len();
        if !(n > 0 && out.as_str().get_char(n - 1) == '/') {
            out.append("/");
        }
        out.append(segs[j].as_str());
        proof {
            assert(out@ == step_path(out0, segs.deep_view()[j as int]));
        }
        j = j + 1;
    }
    out
}

/// Reconstruct an on-disk path under `base_dir` for each present,
/// non-empty source of the map, in source order. Every returned path has
/// the output root as a prefix.
#[verifier::loop_isolation(false)]
pub fn reconstruct_paths(base_dir: &str, sm: &SourceMapData) -> (r: Vec<String>)
    ensures
        r.deep_view() == reconstructed_paths(
            base_dir@,
            sm.source_root.deep_view(),
            sm.sources.deep_view(),
        ),
        forall|k: int|
            0 <= k < r.deep_view().len() ==> is_prefix(base_dir@, #[trigger] r.deep_view()[k]),
{
    proof {
        crate::scan::lemma_opt_string_vec_deep_view(sm.sources);
    }
    let root: String = match &sm.source_root {
        Some(r) => r.clone(),
        None => String::new(),
    };
    proof {
        assert(root@ == root_seq(sm.source_root.deep_view()));
    }
    let ghost ss = sm.sources.deep_view();
    let ghost rt = root@;
    let ghost base = base_dir@;
    let mut out: Vec<String> = Vec::new();
    let mut i: usize = 0;
    while i < sm.sources.len()
        invariant
            0 <= i <= sm.sources@.len(),
            ss == sm.sources.deep_view(),
            rt == root@,
            base == base_dir@,
            out.deep_view() + recon_from(base, rt, ss, i as int) == recon_from(base, rt, ss, 0),
            forall|k: int|
                0 <= k < out.deep_view().len() ==> is_prefix(base, #[trigger] out.deep_view()[k]),
        decreases sm.sources@.len() - i,
    {
        let ghost out0 = out;
        match &sm.sources[i] {
            Some(src) => {
                if src.as_str().unicode_len() > 0 {
                    let norm = normalize_source(root.as_str(), src.as_str());
                    let segs = split_segments(norm.as_str());
                    let path = join_segments(base_dir, &segs);
                    let ghost pathg = path;
                    out.push(path);
                    proof {
                        crate::scan::lemma_string_vec_deep_view_push(out0, out, pathg);
                        lemma_reconstruct_sandboxes(base, rt, ss[i as int].unwrap());
                        assert(recon_from(base, rt, ss, i as int) == seq![
                            reconstructed_path(base, rt, ss[i as int].unwrap()),
                        ] + recon_from(base, rt, ss, i + 1));
                        assert(out.deep_view() + recon_from(base, rt, ss, i + 1)
                            =~= out0.deep_view() + recon_from(base, rt, ss, i as int));
                    }
                } else {
                    proof {
                        assert(recon_from(base, rt, ss, i as int) == recon_from(
                            base,
                            rt,
                            ss,
                            i + 1,
                        ));
                    }
                }
            },
            None => {
                proof {
                    assert(recon_from(base, rt, ss, i as int) == recon_from(base, rt, ss, i + 1));
                }
            },
        }
        i = i + 1;
    }
    proof {
        assert(out.deep_view() + recon_from(base, rt, ss, i as int) =~= out.deep_view());
    }
    out
}

/// The views of a list of path/content pairs.
pub open spec fn path_content_views(v: Seq<(String, Option<String>)>) -> Seq<
    (Seq<char>, Option<Seq<char>>),
> {
    Seq::new(v.len(), |k: int| (v[k].0@, v[k].1.deep_view()))
}

/// The embedded text at index `i`, absent when the list is shorter.
pub open spec fn content_at(cc: Seq<Option<Seq<char>>>, i: int) -> Option<Seq<char>> {
    if 0 <= i < cc.len() {
        cc[i]
    } else {
        None
    }
}

/// The reconstructed paths paired with their indexes' embedded texts, for
/// the sources from index `i` on; absent and empty sources are dropped.
pub open spec fn recon_pairs_from(
    base: Seq<char>,
    root: Seq<char>,
    ss: Seq<Option<Seq<char>>>,
    cc: Seq<Option<Seq<char>>>,
    i: int,
) -> Seq<(Seq<char>, Option<Seq<char>>)>
    decreases ss.len() - i,
{
    if i < 0 || i >= ss.len() {
        Seq::empty()
    } else {
        match ss[i] {
            Some(src) => if src.len() > 0 {
                seq![(reconstructed_path(base, root, src), content_at(cc, i))] + recon_pairs_from(
                    base,
                    root,
                    ss,
                    cc,
                    i + 1,
                )
            } else {
                recon_pairs_from(base, root, ss, cc, i + 1)
            },
            None => recon_pairs_from(base, root, ss, cc, i + 1),
        }
    }
}

/// The reconstructed path of each present, non-empty source, paired with
/// that source's embedded text.
pub open spec fn reconstructed_pairs(
    base: Seq<char>,
    root: Option<Seq<char>>,
    ss: Seq<Option<Seq<char>>>,
    cc: Seq<Option<Seq<char>>>,
) -> Seq<(Seq<char>, Option<Seq<char>>)> {
    recon_pairs_from(base, root_seq(root), ss, cc, 0)
}

/// Reconstruct an on-disk path under `base_dir` for each present,
/// non-empty source of the map, paired with the embedded text of the same
/// source index, in source order. Every path has the output root as a
/// prefix.
#[verifier::loop_isolation(false)]
pub fn reconstruct_paths_with_contents(base_dir: &str, sm: &SourceMapData) -> (r: Vec<
    (String, Option<String>),
>)
    ensures
        path_content_views(r@) == reconstructed_pairs(
            base_dir@,
            sm.source_root.deep_view(),
            sm.sources.deep_view(),
            sm.sources_content.deep_view(),
        ),
        forall|k: int|
            0 <= k < r@.len() ==> is_prefix(base_dir@, #[trigger] path_content_views(r@)[k].0),
{
    proof {
        crate::scan::lemma_opt_string_vec_deep_view(sm.sources);
        crate::scan::lemma_opt_string_vec_deep_view(sm.sources_content);
    }
    let root: String = match &sm.source_root {
        Some(r) => r.clone(),
        None => String::new(),
    };
    proof {
        assert(root@ == root_seq(sm.source_root.deep_view()));
    }
    let ghost ss = sm.sources.deep_view();
    let ghost cc = sm.sources_content.deep_view();
    let ghost rt = root@;
    let ghost base = base_dir@;
    let mut out: Vec<(String, Option<String>)> = Vec::new();
    proof {
        assert(path_content_views(out@) =~= Seq::<(Seq<char>, Option<Seq<char>>)>::empty());
    }
    let mut i: usize = 0;
    while i < sm.sources.len()
        invariant
            0 <= i <= sm.sources@.len(),
            ss == sm.sources.deep_view(),
            cc == sm.sources_content.deep_view(),
            rt == root@,
            base == base_dir@,
            path_content_views(out@) + recon_pairs_from(base, rt, ss, cc, i as int)
                == recon_pairs_from(base, rt, ss, cc, 0),
            forall|k: int|
                0 <= k < out@.len() ==> is_prefix(base, #[trigger] path_content_views(out@)[k].0),
        decreases sm.sources@.len() - i,
    {
        let ghost out0 = out;
        match &sm.sources[i] {
            Some(src) => {
                if src.as_str().unicode_len() > 0 {
                    let norm = normalize_source(root.as_str(), src.as_str());
                    let segs = split_segments(norm.as_str());
                    let path = join_segments(base_dir, &segs);
                    let content: Option<String> = if i < sm.sources_content.len() {
                        match &sm.sources_content[i] {
                            Some(c) => Some(c.clone()),
                            None => None,
                        }
                    } else {
                        None
                    };
                    let ghost pathg = path;
                    let ghost contentg = content;
                    out.push((path, content));
                    proof {
                        lemma_reconstruct_sandboxes(base, rt, ss[i as int].unwrap());
                        assert(contentg.deep_view() == content_at(cc, i as int));
                        assert(path_content_views(out@) =~= path_content_views(out0@).push(
                            (pathg@, contentg.deep_view()),
                        ));
                        assert(path_content_views(out@) + recon_pairs_from(base, rt, ss, cc, i + 1)
                            =~= path_content_views(out0@) + recon_pairs_from(
                            base,
                            rt,
                            ss,
                            cc,
                            i as int,
                        ));
                    }
                } else {
                    proof {
                        assert(recon_pairs_from(base, rt, ss, cc, i as int) == recon_pairs_from(
                            base,
                            rt,
                            ss,
                            cc,
                            i + 1,
                        ));
                    }
                }
            },
            None => {
                proof {
                    assert(recon_pairs_from(base, rt, ss, cc, i as int) == recon_pairs_from(
                        base,
                        rt,
                        ss,
                        cc,
                        i + 1,
                    ));
                }
            },
        }
        i = i + 1;
    }
    proof {
        assert(path_content_views(out@) + recon_pairs_from(base, rt, ss, cc, i as int)
            =~= path_content_views(out@));
    }
    out
}

} // verus!
