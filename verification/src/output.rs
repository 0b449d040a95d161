//! Content validation of an output tree.
//!
//! A tree is modelled as a listing: the relative path and the bytes of each
//! file. `validate_output` compares a source listing against a destination
//! listing by SHA-256 digest and reports every source file that is missing
//! or differs.

use vstd::prelude::*;

verus! {

/// One file of a tree listing: its relative path and its contents.
pub struct TreeFile {
    pub path: String,
    pub data: Vec<u8>,
}

/// The SHA-256 digest of a byte string.
pub uninterp spec fn sha256_of(data: Seq<u8>) -> Seq<u8>;

/// Relies on sha2::Sha256 (through sha2::Digest::digest): the 32-byte
/// SHA-256 digest of the input, a function of the bytes alone.
#[verifier::external_body]
fn sha256_digest(data: &Vec<u8>) -> (d: Vec<u8>)
    ensures
        d@ == sha256_of(data@),
        d@.len() == 32,
{
    <sha2::Sha256 as sha2::Digest>::digest(data.as_slice()).to_vec()
}

/// The contents the destination listing holds for path `p`: the first
/// entry with that path, searched from index `i` on.
pub open spec fn lookup_from(fs: Seq<TreeFile>, p: Seq<char>, i: int) -> Option<Seq<u8>>
    decreases fs.len() - i,
{
    if i < 0 || i >= fs.len() {
        None
    } else if fs[i].path@ == p {
        Some(fs[i].data@)
    } else {
        lookup_from(fs, p, i + 1)
    }
}

/// The contents the listing holds for path `p`, if any.
pub open spec fn lookup(fs: Seq<TreeFile>, p: Seq<char>) -> Option<Seq<u8>> {
    lookup_from(fs, p, 0)
}

/// One source file agrees with the destination: present, and with a
/// digest-equal content.
pub open spec fn file_matches(dst: Seq<TreeFile>, f: TreeFile) -> bool {
    match lookup(dst, f.path@) {
        None => false,
        Some(d) => sha256_of(d) == sha256_of(f.data@),
    }
}

/// The mismatched or missing source paths from index `i` on.
pub open spec fn mismatches_from(src: Seq<TreeFile>, dst: Seq<TreeFile>, i: int) -> Seq<Seq<char>>
    decreases src.len() - i,
{
    if i < 0 || i >= src.len() {
        Seq::empty()
    } else if file_matches(dst, src[i]) {
        mismatches_from(src, dst, i + 1)
    } else {
        seq![src[i].path@] + mismatches_from(src, dst, i + 1)
    }
}

/// The validation report for two tree listings.
pub open spec fn mismatches(src: Seq<TreeFile>, dst: Seq<TreeFile>) -> Seq<Seq<char>> {
    mismatches_from(src, dst, 0)
}

/// Find the contents the destination holds for a path.
#[verifier::loop_isolation(false)]
fn find_file<'a>(dst: &'a Vec<TreeFile>, path: &String) -> (r: Option<&'a Vec<u8>>)
    ensures
        match r {
            Some(d) => lookup(dst@, path@) == Some(d@),
            None => lookup(dst@, path@) is None,
        },
{
    let mut j: usize = 0;
    while j < dst.len()
        invariant
            0 <= j <= dst@.len(),
            lookup(dst@, path@) == lookup_from(dst@, path@, j as int),
        decreases dst@.len() - j,
    {
        if dst[j].path == *path {
            return Some(&dst[j].data);
        }
        j = j + 1;
    }
    None
}

/// Whether two byte strings are equal.
#[verifier::loop_isolation(false)]
fn bytes_eq(a: &Vec<u8>, b: &Vec<u8>) -> (r: bool)
    ensures
        r == (a@ == b@),
{
    if a.len() != b.len() {
        proof {
            assert(a@.len() != b@.len());
        }
        return false;
    }
    let mut i: usize = 0;
    while i < a.len()
        invariant
            0 <= i <= a@.len(),
            a@.len() == b@.len(),
            forall|k: int| 0 <= k < i ==> a@[k] == b@[k],
        decreases a@.len() - i,
    {
        if a[i] != b[i] {
            return false;
        }
        i = i + 1;
    }
    proof {
        assert(a@ =~= b@);
    }
    true
}

/// Validate that the destination listing carries the same contents as the
/// source listing: for every source file, compute SHA-256 over both sides
/// and report the relative paths that are missing or differ.
#[verifier::loop_isolation(false)]
pub fn validate_output(src: &Vec<TreeFile>, dst: &Vec<TreeFile>) -> (r: Vec<String>)
    ensures
        r.deep_view() == mismatches(src@, dst@),
{
    let mut out: Vec<String> = Vec::new();
    proof {
        assert(out.deep_view() =~= Seq::<Seq<char>>::empty());
    }
    let mut i: usize = 0;
    while i < src.len()
        invariant
            0 <= i <= src@.len(),
            out.deep_view() + mismatches_from(src@, dst@, i as int) == mismatches(src@, dst@),
        decreases src@.len() - i,
    {
        let ghost out0 = out;
        let entry = &src[i];
        let ok: bool = match find_file(dst, &entry.path) {
            None => false,
            Some(d) => {
                let hs = sha256_digest(&entry.data);
                let hd = sha256_digest(d);
                bytes_eq(&hs, &hd)
            },
        };
        if !ok {
            let p = entry.path.clone();
            let ghost pg = p;
            out.push(p);
            proof {
                crate::scan::lemma_string_vec_deep_view_push(out0, out, pg);
                assert(out.deep_view() + mismatches_from(src@, dst@, i + 1) =~= out0.deep_view()
                    + mismatches_from(src@, dst@, i as int));
            }
        }
        i = i + 1;
    }
    proof {
        assert(out.deep_view() + mismatches_from(src@, dst@, i as int) =~= out.deep_view());
    }
    out
}

/// The validation report is empty exactly when every file of the source
/// listing is present in the destination with a digest-equal content; when
/// additionally every destination path occurs in the source listing, an
/// empty report says the two trees carry the same files with the same
/// digests.
pub proof fn lemma_validate_output_empty(src: Seq<TreeFile>, dst: Seq<TreeFile>, i: int)
    requires
        0 <= i,
    ensures
        mismatches_from(src, dst, i).len() == 0 <==> (forall|k: int|
            i <= k < src.len() ==> file_matches(dst, #[trigger] src[k])),
    decreases src.len() - i,
{
    if i >= src.len() {
    } else {
        lemma_validate_output_empty(src, dst, i + 1);
    }
}

/// A lookup skips entries with other paths and lands on `k`.
proof fn lemma_lookup_finds(fs: Seq<TreeFile>, p: Seq<char>, k: int, i: int)
    requires
        0 <= i <= k < fs.len(),
        fs[k].path@ == p,
        forall|j: int| i <= j < k ==> (#[trigger] fs[j].path@) != p,
    ensures
        lookup_from(fs, p, i) == Some(fs[k].data@),
    decreases k - i,
{
    if i < k {
        lemma_lookup_finds(fs, p, k, i + 1);
    }
}

/// A listing with distinct paths validates cleanly against itself.
pub proof fn lemma_validate_output_reflexive(fs: Seq<TreeFile>)
    requires
        forall|k1: int, k2: int|
            #![trigger fs[k1].path@, fs[k2].path@]
            0 <= k1 < k2 < fs.len() ==> fs[k1].path@ != fs[k2].path@,
    ensures
        mismatches(fs, fs).len() == 0,
{
    assert forall|k: int| 0 <= k < fs.len() implies file_matches(fs, #[trigger] fs[k]) by {
        lemma_lookup_finds(fs, fs[k].path@, k, 0);
    }
    lemma_validate_output_empty(fs, fs, 0);
}

} // verus!
