//! Character-level utilities shared by the classifier, the watcher and the
//! scanner: ASCII-case-insensitive comparison and substring search over
//! `Seq<char>`, file-extension extraction, and decimal rendering of integers.

use vstd::prelude::*;
use vstd::string::StrSliceExecFns;

verus! {

/// Code point of `c` with ASCII upper-case letters folded to lower case.
/// Case-insensitivity throughout this crate means ASCII case-insensitivity:
/// every pattern the pipeline matches against is plain ASCII.
pub open spec fn lower_code(c: char) -> int {
    if 65 <= c as int <= 90 {
        c as int + 32
    } else {
        c as int
    }
}

/// `a` and `b` are equal up to ASCII case.
pub open spec fn chars_eqi(a: Seq<char>, b: Seq<char>) -> bool {
    a.len() == b.len() && forall|i: int|
        0 <= i < a.len() ==> lower_code(a[i]) == lower_code(#[trigger] b[i])
}

/// `pat` occurs in `s` at position `i`, up to ASCII case.
pub open spec fn matches_ci_at(s: Seq<char>, i: int, pat: Seq<char>) -> bool {
    forall|j: int| 0 <= j < pat.len() ==> lower_code(s[i + j]) == lower_code(#[trigger] pat[j])
}

/// `pat` occurs somewhere in `s`, up to ASCII case.
pub open spec fn contains_ci(s: Seq<char>, pat: Seq<char>) -> bool {
    exists|i: int| 0 <= i && i + pat.len() <= s.len() && matches_ci_at(s, i, pat)
}

/// Index of the dot that starts the extension of path `s`, scanning right to
/// left from position `i` with `dot` the best candidate found so far, or -1.
/// A dot counts only if it lies strictly after the last `/` and is not the
/// first character of the file name.
pub open spec fn ext_dot_from(s: Seq<char>, i: int, dot: int) -> int
    decreases i,
{
    if i <= 0 {
        if dot > 0 {
            dot
        } else {
            -1
        }
    } else if s[i - 1] == '/' {
        if dot > i {
            dot
        } else {
            -1
        }
    } else if s[i - 1] == '.' && dot == -1 {
        ext_dot_from(s, i - 1, i - 1)
    } else {
        ext_dot_from(s, i - 1, dot)
    }
}

/// Index of the dot that starts the extension of path `s`, or -1 if `s` has
/// no extension.
pub open spec fn ext_dot(s: Seq<char>) -> int {
    ext_dot_from(s, s.len() as int, -1)
}

/// The extension of path `s` (the part after the final dot of the file name),
/// empty if there is none.
pub open spec fn ext_seq(s: Seq<char>) -> Seq<char> {
    if ext_dot(s) >= 0 {
        s.subrange(ext_dot(s) + 1, s.len() as int)
    } else {
        Seq::empty()
    }
}

/// The extension of `s` equals `pat` up to ASCII case.
pub open spec fn ext_is(s: Seq<char>, pat: Seq<char>) -> bool {
    chars_eqi(ext_seq(s), pat)
}

/// Decimal representation of a non-negative integer.
pub open spec fn dec_rep(n: int) -> Seq<char>
    decreases n,
{
    if n < 10 {
        seq![dec_digit(n)]
    } else {
        dec_rep(n / 10).push(dec_digit(n % 10))
    }
}

/// The digit character for `d`, meaningful for `0 <= d <= 9`.
pub open spec fn dec_digit(d: int) -> char {
    if d == 0 {
        '0'
    } else if d == 1 {
        '1'
    } else if d == 2 {
        '2'
    } else if d == 3 {
        '3'
    } else if d == 4 {
        '4'
    } else if d == 5 {
        '5'
    } else if d == 6 {
        '6'
    } else if d == 7 {
        '7'
    } else if d == 8 {
        '8'
    } else {
        '9'
    }
}

/// Collect the characters of `s` into a vector.
pub fn to_chars(s: &str) -> (v: Vec<char>)
    ensures
        v@ == s@,
{
    let n = s.unicode_len();
    let mut v: Vec<char> = Vec::new();
    let mut i: usize = 0;
    while i < n
        invariant
            n == s@.len(),
            i <= n,
            v@ == s@.subrange(0, i as int),
        decreases n - i,
    {
        let c = s.get_char(i);
        v.push(c);
        i = i + 1;
        proof {
            assert(v@ =~= s@.subrange(0, i as int));
        }
    }
    proof {
        assert(v@ =~= s@);
    }
    v
}

/// Compare two characters up to ASCII case.
pub fn eq_ci(a: char, b: char) -> (r: bool)
    ensures
        r == (lower_code(a) == lower_code(b)),
{
    let x = a as u32;
    let y = b as u32;
    let xl = if 65 <= x && x <= 90 {
        x + 32
    } else {
        x
    };
    let yl = if 65 <= y && y <= 90 {
        y + 32
    } else {
        y
    };
    xl == yl
}

/// Compare two character vectors up to ASCII case.
pub fn eq_ci_chars(a: &Vec<char>, b: &Vec<char>) -> (r: bool)
    ensures
        r == chars_eqi(a@, b@),
{
    if a.len() != b.len() {
        return false;
    }
    let mut i: usize = 0;
    while i < a.len()
        invariant
            a@.len() == b@.len(),
            i <= a@.len(),
            forall|k: int| 0 <= k < i ==> lower_code(a@[k]) == lower_code(#[trigger] b@[k]),
        decreases a@.len() - i,
    {
        if !eq_ci(a[i], b[i]) {
            return false;
        }
        i = i + 1;
    }
    true
}

/// Search `s` for `pat`, up to ASCII case.
pub fn contains_ci_chars(s: &Vec<char>, pat: &Vec<char>) -> (r: bool)
    ensures
        r == contains_ci(s@, pat@),
{
    if pat.len() > s.len() {
        proof {
            assert(!contains_ci(s@, pat@)) by {
                if contains_ci(s@, pat@) {
                    let i = choose|i: int|
                        0 <= i && i + pat@.len() <= s@.len() && matches_ci_at(s@, i, pat@);
                }
            }
        }
        return false;
    }
    if pat.len() == 0 {
        assert(matches_ci_at(s@, 0, pat@));
        return true;
    }
    let bound = s.len() - pat.len();
    let mut i: usize = 0;
    while i <= bound
        invariant
            1 <= pat@.len() <= s@.len(),
            s@.len() <= usize::MAX,
            bound == s@.len() - pat@.len(),
            i <= bound + 1,
            forall|k: int| 0 <= k < i ==> !matches_ci_at(s@, k, pat@),
        decreases bound + 1 - i,
    {
        if match_ci_at(s, i, pat) {
            assert(contains_ci(s@, pat@));
            return true;
        }
        i = i + 1;
    }
    false
}

/// Check whether `pat` occurs in `s` at position `i`, up to ASCII case.
fn match_ci_at(s: &Vec<char>, i: usize, pat: &Vec<char>) -> (r: bool)
    requires
        i + pat@.len() <= s@.len(),
    ensures
        r == matches_ci_at(s@, i as int, pat@),
{
    let n = s.len();
    let mut j: usize = 0;
    while j < pat.len()
        invariant
            n == s@.len(),
            i + pat@.len() <= s@.len(),
            j <= pat@.len(),
            forall|l: int| 0 <= l < j ==> lower_code(s@[i + l]) == lower_code(#[trigger] pat@[l]),
        decreases pat@.len() - j,
    {
        if !eq_ci(s[i + j], pat[j]) {
            proof {
                assert(!matches_ci_at(s@, i as int, pat@)) by {
                    if matches_ci_at(s@, i as int, pat@) {
                        assert(lower_code(s@[i + j]) == lower_code(pat@[j as int]));
                    }
                }
            }
            return false;
        }
        j = j + 1;
    }
    true
}

/// Search `s` for the characters of the literal `pat`, up to ASCII case.
pub fn contains_ci_str(s: &Vec<char>, pat: &str) -> (r: bool)
    ensures
        r == contains_ci(s@, pat@),
{
    let p = to_chars(pat);
    contains_ci_chars(s, &p)
}

/// Extract the extension of the path held in `s`, empty if there is none.
pub fn ext_chars(s: &Vec<char>) -> (e: Vec<char>)
    ensures
        e@ == ext_seq(s@),
{
    let mut i: usize = s.len();
    let mut dot: Option<usize> = None;
    let found: Option<usize>;
    loop
        invariant
            i <= s@.len(),
            match dot {
                Option::Some(d) => 0 <= d < s@.len(),
                Option::None => true,
            },
            ext_dot(s@) == ext_dot_from(
                s@,
                i as int,
                match dot {
                    Option::Some(d) => d as int,
                    Option::None => -1,
                },
            ),
        ensures
            ext_dot(s@) == match found {
                Option::Some(d) => d as int,
                Option::None => -1,
            },
            match found {
                Option::Some(d) => 0 <= d < s@.len(),
                Option::None => true,
            },
        decreases i,
    {
        if i == 0 {
            found = match dot {
                Option::Some(d) => if d > 0 {
                    Some(d)
                } else {
                    None
                },
                Option::None => None,
            };
            break;
        }
        let c = s[i - 1];
        if c == '/' {
            found = match dot {
                Option::Some(d) => if d > i {
                    Some(d)
                } else {
                    None
                },
                Option::None => None,
            };
            break;
        }
        if c == '.' && dot.is_none() {
            dot = Some(i - 1);
        }
        i = i - 1;
    }
    let mut e: Vec<char> = Vec::new();
    if let Some(d) = found {
        let start = d + 1;
        let mut k: usize = start;
        while k < s.len()
            invariant
                d == ext_dot(s@),
                0 <= d < s@.len(),
                start == d + 1,
                start <= k <= s@.len(),
                e@ == s@.subrange(start as int, k as int),
            decreases s@.len() - k,
        {
            e.push(s[k]);
            k = k + 1;
            proof {
                assert(e@ =~= s@.subrange(start as int, k as int));
            }
        }
        proof {
            assert(e@ =~= ext_seq(s@));
        }
    } else {
        proof {
            assert(e@ =~= ext_seq(s@));
        }
    }
    e
}

/// The extension of `s` equals the literal `pat`, up to ASCII case.
pub fn ext_is_str(s: &Vec<char>, pat: &str) -> (r: bool)
    ensures
        r == ext_is(s@, pat@),
{
    let e = ext_chars(s);
    let p = to_chars(pat);
    eq_ci_chars(&e, &p)
}

/// Compare two string slices by their characters.
pub fn eq_str(a: &str, b: &str) -> (r: bool)
    ensures
        r == (a@ == b@),
{
    let na = a.unicode_len();
    let nb = b.unicode_len();
    if na != nb {
        return false;
    }
    let mut i: usize = 0;
    while i < na
        invariant
            na == a@.len(),
            na == b@.len(),
            i <= na,
            forall|k: int| 0 <= k < i ==> a@[k] == b@[k],
        decreases na - i,
    {
        if a.get_char(i) != b.get_char(i) {
            return false;
        }
        i = i + 1;
    }
    proof {
        assert(a@ =~= b@);
    }
    true
}

/// The digit character for `d`, as a string slice.
fn digit_str(d: u64) -> (r: &'static str)
    requires
        d < 10,
    ensures
        r@ == seq![dec_digit(d as int)],
{
    proof {
        reveal_strlit("0");
        reveal_strlit("1");
        reveal_strlit("2");
        reveal_strlit("3");
        reveal_strlit("4");
        reveal_strlit("5");
        reveal_strlit("6");
        reveal_strlit("7");
        reveal_strlit("8");
        reveal_strlit("9");
    }
    match d {
        0 => "0",
        1 => "1",
        2 => "2",
        3 => "3",
        4 => "4",
        5 => "5",
        6 => "6",
        7 => "7",
        8 => "8",
        _ => "9",
    }
}

/// Render `n` in decimal.
pub(crate) fn u64_to_decimal(n: u64) -> (s: String)
    ensures
        s@ == dec_rep(n as int),
    decreases n,
{
    if n < 10 {
        let s = digit_str(n).to_owned();
        proof {
            assert(s@ =~= dec_rep(n as int));
        }
        s
    } else {
        assert(n / 10 < n);
        let mut s = u64_to_decimal(n / 10);
        s.append(digit_str(n % 10));
        proof {
            assert(s@ =~= dec_rep(n as int));
        }
        s
    }
}

} // verus!
