//! Character-level scanning primitives shared by the runtime analyzer and the
//! source-map locator: literal search, character-class runs, and substring
//! extraction, each specified over `Seq<char>`.

use vstd::prelude::*;

verus! {

/// Character classes used by the scanners.
#[derive(Clone, Copy, PartialEq, Eq, Structural)]
pub enum CharClass {
    /// ASCII whitespace as it appears in generated JavaScript.
    Ws,
    /// Anything but whitespace.
    NonWs,
    /// A decimal digit.
    Digit,
    /// A word character: letter, digit or underscore.
    Word,
    /// A word character or a dash.
    WordDash,
    /// Anything but `*`.
    NonStar,
    /// Anything but whitespace or `*`.
    NonWsStar,
    /// Anything but `"`.
    NonDQuote,
    /// Anything but `"` or `'`.
    NonAnyQuote,
    /// Anything but `}`.
    NonBrace,
    /// Anything but `{`.
    NonOpenBrace,
    /// Anything but `+`.
    NonPlus,
    /// Anything but `>`.
    NonGt,
    /// Anything but `)`.
    NonCloseParen,
    /// Anything but a comma.
    NonComma,
    /// Anything but a colon.
    NonColon,
    /// Anything but a backtick.
    NonBacktick,
    /// Anything but `/`.
    NonSlash,
    /// Exactly `"`.
    DQuote,
}

/// Whether `c` counts as whitespace for scanning purposes.
pub open spec fn is_ws_char(c: char) -> bool {
    c == ' ' || c == '\t' || c == '\n' || c == '\r' || c == '\u{0b}' || c == '\u{0c}'
}

/// Whether `c` is a decimal digit.
pub open spec fn is_digit_char(c: char) -> bool {
    '0' <= c && c <= '9'
}

/// Whether `c` is a word character: an ASCII letter, a digit or `_`.
pub open spec fn is_word_char(c: char) -> bool {
    is_digit_char(c) || ('a' <= c && c <= 'z') || ('A' <= c && c <= 'Z') || c == '_'
}

/// Membership of `c` in the class `cl`.
pub open spec fn in_class(cl: CharClass, c: char) -> bool {
    match cl {
        CharClass::Ws => is_ws_char(c),
        CharClass::NonWs => !is_ws_char(c),
        CharClass::Digit => is_digit_char(c),
        CharClass::Word => is_word_char(c),
        CharClass::WordDash => is_word_char(c) || c == '-',
        CharClass::NonStar => c != '*',
        CharClass::NonWsStar => !is_ws_char(c) && c != '*',
        CharClass::NonDQuote => c != '"',
        CharClass::NonAnyQuote => c != '"' && c != '\'',
        CharClass::NonBrace => c != '}',
        CharClass::NonOpenBrace => c != '{',
        CharClass::NonPlus => c != '+',
        CharClass::NonGt => c != '>',
        CharClass::NonCloseParen => c != ')',
        CharClass::NonComma => c != ',',
        CharClass::NonColon => c != ':',
        CharClass::NonBacktick => c != '`',
        CharClass::NonSlash => c != '/',
        CharClass::DQuote => c == '"',
    }
}

/// The first index at or after `i` whose character is not in `cl`
/// (or `s.len()` when the run reaches the end).
pub open spec fn run_end(s: Seq<char>, i: int, cl: CharClass) -> int
    decreases s.len() - i,
{
    if i < 0 || i >= s.len() {
        i
    } else if in_class(cl, s[i]) {
        run_end(s, i + 1, cl)
    } else {
        i
    }
}

/// `run_end` never moves backwards and never passes the end of the text.
pub proof fn lemma_run_end_bounds(s: Seq<char>, i: int, cl: CharClass)
    requires
        0 <= i <= s.len(),
    ensures
        i <= run_end(s, i, cl) <= s.len(),
        forall|k: int| i <= k < run_end(s, i, cl) ==> in_class(cl, s[k]),
        run_end(s, i, cl) < s.len() ==> !in_class(cl, s[run_end(s, i, cl)]),
    decreases s.len() - i,
{
    if i < s.len() && in_class(cl, s[i]) {
        lemma_run_end_bounds(s, i + 1, cl);
    }
}

/// A run of class characters followed by a stop pins `run_end` down.
pub proof fn lemma_run_end_exact(s: Seq<char>, i: int, e: int, cl: CharClass)
    requires
        0 <= i <= e <= s.len(),
        forall|k: int| i <= k < e ==> in_class(cl, #[trigger] s[k]),
        e == s.len() || !in_class(cl, s[e]),
    ensures
        run_end(s, i, cl) == e,
    decreases e - i,
{
    if i < e {
        lemma_run_end_exact(s, i + 1, e, cl);
    }
}

/// The pattern `pat` occurs in `s` starting at `i`.
pub open spec fn match_at(s: Seq<char>, pat: Seq<char>, i: int) -> bool {
    0 <= i && i + pat.len() <= s.len() && s.subrange(i, i + pat.len()) == pat
}

/// The first index at or after `i` where `pat` occurs in `s`.
pub open spec fn find_from(s: Seq<char>, pat: Seq<char>, i: int) -> Option<int>
    decreases s.len() - i,
{
    if i < 0 || pat.len() == 0 || i + pat.len() > s.len() {
        None
    } else if match_at(s, pat, i) {
        Some(i)
    } else {
        find_from(s, pat, i + 1)
    }
}

/// What `find_from` returns really is the first occurrence.
pub proof fn lemma_find_from_props(s: Seq<char>, pat: Seq<char>, i: int)
    requires
        0 <= i,
        1 <= pat.len(),
    ensures
        match find_from(s, pat, i) {
            Some(j) => i <= j && match_at(s, pat, j) && forall|k: int|
                i <= k < j ==> !match_at(s, pat, k),
            None => forall|k: int| i <= k ==> !match_at(s, pat, k),
        },
    decreases s.len() - i,
{
    if pat.len() == 0 || i + pat.len() > s.len() {
    } else if match_at(s, pat, i) {
    } else {
        lemma_find_from_props(s, pat, i + 1);
    }
}

/// Collect the characters of `s` into a vector for random access.
#[verifier::loop_isolation(false)]
pub fn to_chars(s: &str) -> (v: Vec<char>)
    ensures
        v@ == s@,
{
    let n = s.unicode_len();
    let mut v: Vec<char> = Vec::new();
    let mut i: usize = 0;
    while i < n
        invariant
            i <= n,
            n == s@.len(),
            v@ == s@.subrange(0, i as int),
        decreases n - i,
    {
        let c = s.get_char(i);
        v.push(c);
        i = i + 1;
        proof {
            assert(v@ =~= s@.subrange(0, i as int));
        }
    }
    proof {
        assert(v@ =~= s@);
    }
    v
}

/// Whether `c` is in `cl`, executably.
pub fn char_in_class(cl: CharClass, c: char) -> (r: bool)
    ensures
        r == in_class(cl, c),
{
    let ws = c == ' ' || c == '\t' || c == '\n' || c == '\r' || c == '\u{0b}' || c == '\u{0c}';
    let digit = '0' <= c && c <= '9';
    let word = digit || ('a' <= c && c <= 'z') || ('A' <= c && c <= 'Z') || c == '_';
    match cl {
        CharClass::Ws => ws,
        CharClass::NonWs => !ws,
        CharClass::Digit => digit,
        CharClass::Word => word,
        CharClass::WordDash => word || c == '-',
        CharClass::NonStar => c != '*',
        CharClass::NonWsStar => !ws && c != '*',
        CharClass::NonDQuote => c != '"',
        CharClass::NonAnyQuote => c != '"' && c != '\'',
        CharClass::NonBrace => c != '}',
        CharClass::NonOpenBrace => c != '{',
        CharClass::NonPlus => c != '+',
        CharClass::NonGt => c != '>',
        CharClass::NonCloseParen => c != ')',
        CharClass::NonComma => c != ',',
        CharClass::NonColon => c != ':',
        CharClass::NonBacktick => c != '`',
        CharClass::NonSlash => c != '/',
        CharClass::DQuote => c == '"',
    }
}

/// Advance from `from` past every character of class `cl`.
#[verifier::loop_isolation(false)]
pub fn scan_while(cs: &Vec<char>, from: usize, cl: CharClass) -> (r: usize)
    requires
        from <= cs@.len(),
    ensures
        r == run_end(cs@, from as int, cl),
        from <= r <= cs@.len(),
{
    proof {
        lemma_run_end_bounds(cs@, from as int, cl);
    }
    let mut i = from;
    while i < cs.len() && char_in_class(cl, cs[i])
        invariant
            from <= i <= cs@.len(),
            run_end(cs@, from as int, cl) == run_end(cs@, i as int, cl),
        decreases cs@.len() - i,
    {
        i = i + 1;
    }
    i
}

/// Whether `pat` occurs in `cs` at position `at`.
#[verifier::loop_isolation(false)]
pub fn lit_at(cs: &Vec<char>, at: usize, pat: &Vec<char>) -> (r: bool)
    ensures
        r == match_at(cs@, pat@, at as int),
{
    if at > cs.len() || pat.len() > cs.len() - at {
        return false;
    }
    let mut j: usize = 0;
    while j < pat.len()
        invariant
            0 <= j <= pat@.len(),
            at + pat@.len() <= cs@.len(),
            forall|k: int| 0 <= k < j ==> cs@[at + k] == pat@[k],
        decreases pat@.len() - j,
    {
        if cs[at + j] != pat[j] {
            assert(cs@.subrange(at as int, at + pat@.len())[j as int] != pat@[j as int]);
            return false;
        }
        j = j + 1;
    }
    proof {
        assert(cs@.subrange(at as int, at + pat@.len()) =~= pat@);
    }
    true
}

/// Find the first occurrence of `pat` in `cs` at or after `from`.
#[verifier::loop_isolation(false)]
pub fn find_lit(cs: &Vec<char>, from: usize, pat: &Vec<char>) -> (r: Option<usize>)
    requires
        from <= cs@.len(),
        1 <= pat@.len(),
    ensures
        match r {
            Some(j) => from <= j && j + pat@.len() <= cs@.len() && Some(j as int) == find_from(
                cs@,
                pat@,
                from as int,
            ),
            None => find_from(cs@, pat@, from as int) is None,
        },
{
    let mut i = from;
    loop
        invariant
            from <= i <= cs@.len(),
            find_from(cs@, pat@, from as int) == find_from(cs@, pat@, i as int),
        decreases cs@.len() - i,
    {
        if pat.len() > cs.len() - i {
            return None;
        }
        if lit_at(cs, i, pat) {
            return Some(i);
        }
        i = i + 1;
    }
}

/// Walk backwards from `j` over whitespace, stopping no earlier than `lo`.
pub open spec fn ws_back(s: Seq<char>, j: int, lo: int) -> int
    decreases j,
{
    if j <= lo || j <= 0 || j > s.len() {
        j
    } else if is_ws_char(s[j - 1]) {
        ws_back(s, j - 1, lo)
    } else {
        j
    }
}

/// `ws_back` stays within `[lo, j]` and strips only trailing whitespace.
pub proof fn lemma_ws_back_bounds(s: Seq<char>, j: int, lo: int)
    requires
        0 <= lo <= j <= s.len(),
    ensures
        lo <= ws_back(s, j, lo) <= j,
        forall|k: int| ws_back(s, j, lo) <= k < j ==> is_ws_char(s[k]),
    decreases j,
{
    if j > lo && j > 0 && j <= s.len() && is_ws_char(s[j - 1]) {
        lemma_ws_back_bounds(s, j - 1, lo);
    }
}

/// Walk backwards from `j` over whitespace, executably.
#[verifier::loop_isolation(false)]
pub fn scan_ws_back(cs: &Vec<char>, j: usize, lo: usize) -> (r: usize)
    requires
        lo <= j <= cs@.len(),
    ensures
        r == ws_back(cs@, j as int, lo as int),
        lo <= r <= j,
{
    proof {
        lemma_ws_back_bounds(cs@, j as int, lo as int);
    }
    let mut b = j;
    while b > lo && char_in_class(CharClass::Ws, cs[b - 1])
        invariant
            lo <= b <= j,
            ws_back(cs@, j as int, lo as int) == ws_back(cs@, b as int, lo as int),
        decreases b,
    {
        b = b - 1;
    }
    b
}

/// The deep view of a vector of strings is the sequence of its members' views.
pub proof fn lemma_string_vec_deep_view(v: Vec<String>)
    ensures
        v.deep_view().len() == v@.len(),
        forall|i: int| 0 <= i < v@.len() ==> v.deep_view()[i] == #[trigger] v@[i]@,
{
}

/// Walk backwards from `j` over characters of class `cl`, stopping no
/// earlier than `lo`.
pub open spec fn back_while(s: Seq<char>, j: int, lo: int, cl: CharClass) -> int
    decreases j,
{
    if j <= lo || j <= 0 || j > s.len() {
        j
    } else if in_class(cl, s[j - 1]) {
        back_while(s, j - 1, lo, cl)
    } else {
        j
    }
}

/// `back_while` stays within `[lo, j]`.
pub proof fn lemma_back_while_bounds(s: Seq<char>, j: int, lo: int, cl: CharClass)
    requires
        0 <= lo <= j <= s.len(),
    ensures
        lo <= back_while(s, j, lo, cl) <= j,
    decreases j,
{
    if j > lo && j > 0 && j <= s.len() && in_class(cl, s[j - 1]) {
        lemma_back_while_bounds(s, j - 1, lo, cl);
    }
}

/// Walk backwards from `j` over characters of class `cl`, executably.
#[verifier::loop_isolation(false)]
pub fn scan_back(cs: &Vec<char>, j: usize, lo: usize, cl: CharClass) -> (r: usize)
    requires
        lo <= j <= cs@.len(),
    ensures
        r == back_while(cs@, j as int, lo as int, cl),
        lo <= r <= j,
{
    proof {
        lemma_back_while_bounds(cs@, j as int, lo as int, cl);
    }
    let mut b = j;
    while b > lo && char_in_class(cl, cs[b - 1])
        invariant
            lo <= b <= j,
            back_while(cs@, j as int, lo as int, cl) == back_while(cs@, b as int, lo as int, cl),
        decreases b,
    {
        b = b - 1;
    }
    b
}

/// The last index at or before `i` where `pat` occurs in `s`.
pub open spec fn rfind_from(s: Seq<char>, pat: Seq<char>, i: int) -> Option<int>
    decreases i + 1,
{
    if i < 0 || pat.len() == 0 {
        None
    } else if match_at(s, pat, i) {
        Some(i)
    } else {
        rfind_from(s, pat, i - 1)
    }
}

/// Find the last occurrence of `pat` in `cs`.
#[verifier::loop_isolation(false)]
pub fn rfind_lit(cs: &Vec<char>, pat: &Vec<char>) -> (r: Option<usize>)
    requires
        1 <= pat@.len(),
    ensures
        match r {
            Some(j) => j + pat@.len() <= cs@.len() && Some(j as int) == rfind_from(
                cs@,
                pat@,
                cs@.len() as int,
            ),
            None => rfind_from(cs@, pat@, cs@.len() as int) is None,
        },
{
    let mut i = cs.len();
    loop
        invariant
            0 <= i <= cs@.len(),
            rfind_from(cs@, pat@, cs@.len() as int) == rfind_from(cs@, pat@, i as int),
        decreases i,
    {
        if lit_at(cs, i, pat) {
            return Some(i);
        }
        if i == 0 {
            return None;
        }
        i = i - 1;
    }
}

/// Pushing a string onto a vector pushes its view onto the deep view.
pub proof fn lemma_string_vec_deep_view_push(v1: Vec<String>, v2: Vec<String>, x: String)
    requires
        v2@ == v1@.push(x),
    ensures
        v2.deep_view() == v1.deep_view().push(x@),
{
    lemma_string_vec_deep_view(v1);
    lemma_string_vec_deep_view(v2);
    assert(v2.deep_view() =~= v1.deep_view().push(x@));
}

/// Removing the last string of a vector drops the last view of the deep view.
pub proof fn lemma_string_vec_deep_view_pop(v1: Vec<String>, v2: Vec<String>)
    requires
        v1@.len() > 0,
        v2@ == v1@.drop_last(),
    ensures
        v2.deep_view() == v1.deep_view().drop_last(),
{
    lemma_string_vec_deep_view(v1);
    lemma_string_vec_deep_view(v2);
    assert(v2.deep_view() =~= v1.deep_view().drop_last());
}

/// The deep view of a vector of optional strings, member by member.
pub proof fn lemma_opt_string_vec_deep_view(v: Vec<Option<String>>)
    ensures
        v.deep_view().len() == v@.len(),
        forall|i: int| 0 <= i < v@.len() ==> v.deep_view()[i] == #[trigger] v@[i].deep_view(),
{
}

/// Pushing an optional string onto a vector pushes its view onto the deep
/// view.
pub proof fn lemma_opt_string_vec_deep_view_push(
    v1: Vec<Option<String>>,
    v2: Vec<Option<String>>,
    x: Option<String>,
)
    requires
        v2@ == v1@.push(x),
    ensures
        v2.deep_view() == v1.deep_view().push(x.deep_view()),
{
    lemma_opt_string_vec_deep_view(v1);
    lemma_opt_string_vec_deep_view(v2);
    assert(v2.deep_view() =~= v1.deep_view().push(x.deep_view()));
}

/// A sequence is a prefix of another when the other starts with it.
pub open spec fn is_prefix(p: Seq<char>, s: Seq<char>) -> bool {
    match_at(s, p, 0)
}

/// Prefixes compose transitively.
pub proof fn lemma_prefix_trans(a: Seq<char>, b: Seq<char>, c: Seq<char>)
    requires
        is_prefix(a, b),
        is_prefix(b, c),
    ensures
        is_prefix(a, c),
{
    assert forall|k: int| 0 <= k < a.len() implies c[k] == a[k] by {
        assert(b.subrange(0, a.len() as int)[k] == b[k]);
        assert(c.subrange(0, b.len() as int)[k] == c[k]);
    }
    assert(c.subrange(0, a.len() as int) =~= a);
}

/// Whether some element of `v` has the same characters as `s`.
#[verifier::loop_isolation(false)]
pub fn contains_string(v: &Vec<String>, s: &String) -> (r: bool)
    ensures
        r == v.deep_view().contains(s@),
{
    proof {
        lemma_string_vec_deep_view(*v);
    }
    let mut i: usize = 0;
    while i < v.len()
        invariant
            0 <= i <= v@.len(),
            forall|k: int| 0 <= k < i ==> v.deep_view()[k] != s@,
        decreases v@.len() - i,
    {
        if v[i] == *s {
            assert(v.deep_view()[i as int] == s@);
            return true;
        }
        i = i + 1;
    }
    assert(forall|k: int| 0 <= k < v.deep_view().len() ==> v.deep_view()[k] != s@);
    false
}

/// Copy the characters `[from, to)` of `s` into a fresh string.
pub fn take_range(s: &str, from: usize, to: usize) -> (r: String)
    requires
        from <= to <= s@.len(),
    ensures
        r@ == s@.subrange(from as int, to as int),
{
    s.substring_char(from, to).to_owned()
}

} // verus!
