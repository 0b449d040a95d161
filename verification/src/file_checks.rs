//! Validation of local JavaScript file paths.
//!
//! The pure parts of the check: whether a path carries a `.js` extension,
//! and the mapping from a filesystem probe's outcome to the exact error.
//! The probe itself (metadata, canonicalization) runs outside the library.

use vstd::prelude::*;

use crate::scan::lit_at;
use crate::scan::match_at;
use crate::scan::to_chars;

verus! {

/// Errors of local file validation.
#[derive(Debug)]
pub enum FileAnalysisError {
    /// The file does not exist.
    NotFound(String),
    /// The path is not a regular `.js` file.
    InvalidExtension(String),
    /// The file cannot be accessed.
    PermissionDenied(String),
    /// Another input/output failure, with its description.
    Io(String),
}

/// What a filesystem probe of the path observed.
pub enum PathProbe {
    /// The path exists and is a regular file.
    IsFile,
    /// The path exists but is not a regular file.
    NotFile,
    /// The path does not exist.
    Missing,
    /// The path cannot be accessed.
    Denied,
    /// The probe failed for another reason, with its description.
    Failed(String),
}

/// Start of the final path component: the position after the last `/` at
/// or before `j`.
pub open spec fn seg_start(s: Seq<char>, j: int) -> int
    decreases j,
{
    if j <= 0 || j > s.len() {
        0
    } else if s[j - 1] == '/' {
        j
    } else {
        seg_start(s, j - 1)
    }
}

/// Position of the last `.` in `[lo, j)`, or `-1` when there is none.
pub open spec fn last_dot(s: Seq<char>, j: int, lo: int) -> int
    decreases j,
{
    if j <= lo || j <= 0 || j > s.len() {
        -1
    } else if s[j - 1] == '.' {
        j - 1
    } else {
        last_dot(s, j - 1, lo)
    }
}

/// The path names a `.js` file: its final component has an extension, the
/// extension is exactly `js`, and the dot does not open the file name.
pub open spec fn names_js_file(s: Seq<char>) -> bool {
    let st = seg_start(s, s.len() as int);
    let d = last_dot(s, s.len() as int, st);
    &&& d > st
    &&& match_at(s, "js"@, d + 1)
    &&& d + 1 + "js"@.len() == s.len()
}

/// Whether the path carries a `.js` extension on its final component.
#[verifier::loop_isolation(false)]
pub fn has_js_extension(path: &str) -> (r: bool)
    ensures
        r == names_js_file(path@),
{
    let cs = to_chars(path);
    let jl = to_chars("js");
    let n = cs.len();
    let mut j = n;
    while j > 0 && cs[j - 1] != '/'
        invariant
            0 <= j <= n,
            n == cs@.len(),
            seg_start(cs@, n as int) == seg_start(cs@, j as int),
        decreases j,
    {
        j = j - 1;
    }
    let st = j;
    let mut k = n;
    let mut dot: Option<usize> = None;
    while k > st && dot.is_none()
        invariant
            st <= k <= n,
            n == cs@.len(),
            match dot {
                Some(d) => st <= d && d < n && last_dot(cs@, n as int, st as int) == d as int,
                None => last_dot(cs@, n as int, st as int) == last_dot(cs@, k as int, st as int),
            },
        decreases k + (if dot.is_none() {
            1int
        } else {
            0int
        }),
    {
        if cs[k - 1] == '.' {
            dot = Some(k - 1);
        } else {
            k = k - 1;
        }
    }
    match dot {
        Some(d) => d > st && lit_at(&cs, d + 1, &jl) && d + 1 + jl.len() == n,
        None => false,
    }
}

/// Decide the outcome of validating a local JavaScript path: the extension
/// is checked first, then the probe's observation is mapped to its error.
pub fn check_js_path(path: &str, probe: PathProbe) -> (r: Result<(), FileAnalysisError>)
    ensures
        match r {
            Ok(()) => names_js_file(path@) && probe is IsFile,
            Err(e) => match e {
                FileAnalysisError::InvalidExtension(p) => p@ == path@ && (!names_js_file(path@)
                    || probe is NotFile),
                FileAnalysisError::NotFound(p) => p@ == path@ && names_js_file(path@)
                    && probe is Missing,
                FileAnalysisError::PermissionDenied(p) => p@ == path@ && names_js_file(path@)
                    && probe is Denied,
                FileAnalysisError::Io(m) => names_js_file(path@) && (probe matches PathProbe::Failed(m0) && m@ == m0@),
            },
        },
{
    if !has_js_extension(path) {
        return Err(FileAnalysisError::InvalidExtension(path.to_owned()));
    }
    match probe {
        PathProbe::IsFile => Ok(()),
        PathProbe::NotFile => Err(FileAnalysisError::InvalidExtension(path.to_owned())),
        PathProbe::Missing => Err(FileAnalysisError::NotFound(path.to_owned())),
        PathProbe::Denied => Err(FileAnalysisError::PermissionDenied(path.to_owned())),
        PathProbe::Failed(m) => Err(FileAnalysisError::Io(m)),
    }
}

} // verus!
