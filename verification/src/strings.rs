//! Small verified utilities over `&str`, `String` and `Vec<char>`.
//!
//! Verified code here works on sequences of characters; the one trusted item
//! turns a finished `Vec<char>` back into a `String`.

use vstd::prelude::*;
use vstd::string::StrSliceExecFns;
use vstd::string::StringExecFns;

verus! {

/// Relies on `core::iter::Iterator::collect` for `String` from chars:
/// the collected string holds exactly the characters of the vector, in order.
#[verifier::external_body]
pub fn chars_to_string(v: &Vec<char>) -> (s: String)
    ensures
        s@ == v@,
{
    v.iter().collect()
}

/// The characters of a string slice, as a vector.
pub fn str_chars(s: &str) -> (v: Vec<char>)
    ensures
        v@ == s@,
{
    let n = s.unicode_len();
    let mut v: Vec<char> = Vec::new();
    let mut i: usize = 0;
    while i < n
        invariant
            n == s@.len(),
            i <= n,
            v@ == s@.take(i as int),
        decreases n - i,
    {
        v.push(s.get_char(i));
        i = i + 1;
        proof {
            assert(v@ =~= s@.take(i as int));
        }
    }
    proof {
        assert(v@ =~= s@);
    }
    v
}

/// Character-wise equality of two string slices.
pub fn str_eq(a: &str, b: &str) -> (r: bool)
    ensures
        r == (a@ == b@),
{
    let na = a.unicode_len();
    let nb = b.unicode_len();
    if na != nb {
        proof {
            assert(a@ != b@);
        }
        return false;
    }
    let mut i: usize = 0;
    while i < na
        invariant
            na == a@.len(),
            na == b@.len(),
            i <= na,
            forall|j: int| 0 <= j < i ==> a@[j] == b@[j],
        decreases na - i,
    {
        if a.get_char(i) != b.get_char(i) {
            proof {
                assert(a@[i as int] != b@[i as int]);
            }
            return false;
        }
        i = i + 1;
    }
    proof {
        assert(a@ =~= b@);
    }
    true
}

/// Whether `pat` occurs in `s` starting at position `at`.
pub open spec fn matches_at(s: Seq<char>, pat: Seq<char>, at: int) -> bool {
    &&& 0 <= at
    &&& at + pat.len() <= s.len()
    &&& s.subrange(at, at + pat.len()) == pat
}

/// Whether `pat` occurs anywhere in `s`.
pub open spec fn contains_seq(s: Seq<char>, pat: Seq<char>) -> bool {
    exists|at: int| matches_at(s, pat, at)
}

/// Substring search by characters.
pub fn str_contains(s: &str, pat: &str) -> (r: bool)
    ensures
        r == contains_seq(s@, pat@),
{
    let n = s.unicode_len();
    let m = pat.unicode_len();
    if m > n {
        proof {
            assert(forall|at: int| !matches_at(s@, pat@, at));
        }
        return false;
    }
    let mut at: usize = 0;
    while at <= n - m
        invariant
            n == s@.len(),
            m == pat@.len(),
            m <= n,
            at <= n - m + 1,
            forall|k: int| 0 <= k < at ==> !matches_at(s@, pat@, k),
        decreases n - m - at + 1,
    {
        let mut j: usize = 0;
        let mut all_eq: bool = true;
        while j < m
            invariant
                n == s@.len(),
                m == pat@.len(),
                at + m <= n,
                j <= m,
                all_eq == (forall|k: int| 0 <= k < j ==> s@[at + k] == pat@[k]),
            decreases m - j,
        {
            if s.get_char(at + j) != pat.get_char(j) {
                proof {
                    assert(s@[at + j] != pat@[j as int]);
                }
                all_eq = false;
                j = m;
            } else {
                proof {
                    assert(s@[at + j] == pat@[j as int]);
                }
                j = j + 1;
            }
        }
        if all_eq {
            proof {
                assert(s@.subrange(at as int, at + pat@.len()) =~= pat@);
                assert(matches_at(s@, pat@, at as int));
            }
            return true;
        }
        proof {
            assert(!(forall|k: int| 0 <= k < m ==> s@[at + k] == pat@[k]));
            assert(s@.subrange(at as int, at + pat@.len()) != pat@) by {
                let kk = choose|k: int| 0 <= k < m && s@[at + k] != pat@[k];
                assert(s@.subrange(at as int, at + pat@.len())[kk] == s@[at + kk]);
            }
            assert(!matches_at(s@, pat@, at as int));
        }
        at = at + 1;
    }
    proof {
        assert(forall|k: int| matches_at(s@, pat@, k) ==> 0 <= k <= n - m);
        assert(!contains_seq(s@, pat@));
    }
    false
}

/// Whether `s` begins with `pat`.
pub open spec fn starts_with_seq(s: Seq<char>, pat: Seq<char>) -> bool {
    pat.len() <= s.len() && s.subrange(0, pat.len() as int) == pat
}

/// Prefix test by characters.
pub fn str_starts_with(s: &str, pat: &str) -> (r: bool)
    ensures
        r == starts_with_seq(s@, pat@),
{
    let n = s.unicode_len();
    let m = pat.unicode_len();
    if m > n {
        return false;
    }
    let mut j: usize = 0;
    while j < m
        invariant
            n == s@.len(),
            m == pat@.len(),
            m <= n,
            j <= m,
            forall|k: int| 0 <= k < j ==> s@[k] == pat@[k],
        decreases m - j,
    {
        if s.get_char(j) != pat.get_char(j) {
            proof {
                assert(s@[j as int] != pat@[j as int]);
                assert(s@.subrange(0, pat@.len() as int) != pat@) by {
                    assert(s@.subrange(0, pat@.len() as int)[j as int] == s@[j as int]);
                }
            }
            return false;
        }
        j = j + 1;
    }
    proof {
        assert(s@.subrange(0, pat@.len() as int) =~= pat@);
    }
    true
}

/// Whether `s` ends with `pat`.
pub open spec fn ends_with_seq(s: Seq<char>, pat: Seq<char>) -> bool {
    pat.len() <= s.len() && s.subrange(s.len() - pat.len(), s.len() as int) == pat
}

/// Suffix test by characters.
pub fn str_ends_with(s: &str, pat: &str) -> (r: bool)
    ensures
        r == ends_with_seq(s@, pat@),
{
    let n = s.unicode_len();
    let m = pat.unicode_len();
    if m > n {
        return false;
    }
    let mut j: usize = 0;
    while j < m
        invariant
            n == s@.len(),
            m == pat@.len(),
            m <= n,
            j <= m,
            forall|k: int| 0 <= k < j ==> s@[n - m + k] == pat@[k],
        decreases m - j,
    {
        if s.get_char(n - m + j) != pat.get_char(j) {
            proof {
                assert(s@[n - m + j] != pat@[j as int]);
                assert(s@.subrange(n - m, n as int) != pat@) by {
                    assert(s@.subrange(n - m, n as int)[j as int] == s@[n - m + j]);
                }
            }
            return false;
        }
        j = j + 1;
    }
    proof {
        assert(s@.subrange(n - m, n as int) =~= pat@);
    }
    true
}

/// A new string holding `a` followed by `b`.
pub fn concat_str(a: &str, b: &str) -> (r: String)
    ensures
        r@ == a@ + b@,
{
    let mut s = String::new();
    s.append(a);
    s.append(b);
    proof {
        assert(s@ =~= a@ + b@);
    }
    s
}

/// The ASCII whitespace characters that the kernel's trimming recognises.
pub open spec fn is_space_char(c: char) -> bool {
    c == ' ' || c == '\t' || c == '\n' || c == '\r'
}

/// Executable test matching `is_space_char`.
pub fn is_space(c: char) -> (r: bool)
    ensures
        r == is_space_char(c),
{
    c == ' ' || c == '\t' || c == '\n' || c == '\r'
}

/// `s` with leading and trailing whitespace characters removed:
/// the subrange from the first to the last non-space character.
pub open spec fn trim_spec(s: Seq<char>) -> Seq<char>
    decreases s.len(),
{
    if s.len() == 0 {
        s
    } else if is_space_char(s[0]) {
        trim_spec(s.drop_first())
    } else if is_space_char(s[s.len() - 1]) {
        trim_spec(s.drop_last())
    } else {
        s
    }
}

/// Trim ASCII whitespace from both ends of a character vector.
pub fn trim_chars(v: &Vec<char>) -> (r: Vec<char>)
    ensures
        r@ == trim_spec(v@),
{
    let mut lo: usize = 0;
    let mut hi: usize = v.len();
    proof {
        assert(v@.subrange(0, v@.len() as int) =~= v@);
    }
    while lo < hi && is_space(v[lo])
        invariant
            lo <= hi <= v@.len(),
            trim_spec(v@) == trim_spec(v@.subrange(lo as int, hi as int)),
        decreases hi - lo,
    {
        proof {
            let cur = v@.subrange(lo as int, hi as int);
            assert(cur.drop_first() =~= v@.subrange(lo as int + 1, hi as int));
        }
        lo = lo + 1;
    }
    while lo < hi && is_space(v[hi - 1])
        invariant
            lo <= hi <= v@.len(),
            trim_spec(v@) == trim_spec(v@.subrange(lo as int, hi as int)),
            lo < hi ==> !is_space_char(v@[lo as int]),
        decreases hi - lo,
    {
        proof {
            let cur = v@.subrange(lo as int, hi as int);
            assert(cur.drop_last() =~= v@.subrange(lo as int, hi as int - 1));
        }
        hi = hi - 1;
    }
    let mut r: Vec<char> = Vec::new();
    let mut i: usize = lo;
    while i < hi
        invariant
            lo <= i <= hi <= v@.len(),
            r@ == v@.subrange(lo as int, i as int),
        decreases hi - i,
    {
        r.push(v[i]);
        i = i + 1;
        proof {
            assert(r@ =~= v@.subrange(lo as int, i as int));
        }
    }
    proof {
        let cur = v@.subrange(lo as int, hi as int);
        if lo < hi {
            assert(!is_space_char(cur[0]));
            assert(!is_space_char(cur[cur.len() - 1]));
            assert(trim_spec(cur) == cur);
        } else {
            assert(cur =~= Seq::<char>::empty());
        }
        assert(r@ =~= cur);
    }
    r
}

/// Trim ASCII whitespace from both ends of a string slice.
pub fn trim_str(s: &str) -> (r: String)
    ensures
        r@ == trim_spec(s@),
{
    let v = str_chars(s);
    let t = trim_chars(&v);
    chars_to_string(&t)
}

/// The decimal digit character for a value below ten.
pub open spec fn dec_digit(v: int) -> char {
    if v == 0 {
        '0'
    } else if v == 1 {
        '1'
    } else if v == 2 {
        '2'
    } else if v == 3 {
        '3'
    } else if v == 4 {
        '4'
    } else if v == 5 {
        '5'
    } else if v == 6 {
        '6'
    } else if v == 7 {
        '7'
    } else if v == 8 {
        '8'
    } else {
        '9'
    }
}

/// The decimal digits of a number, most significant first.
pub open spec fn dec_spec(n: int) -> Seq<char>
    decreases n,
{
    if n <= 0 {
        seq!['0']
    } else if n < 10 {
        seq![dec_digit(n)]
    } else {
        dec_spec(n / 10).push(dec_digit(n % 10))
    }
}

/// Render a number in decimal.
pub fn u64_to_string(n: u64) -> (r: String)
    ensures
        r@ == dec_spec(n as int),
{
    let mut digits: Vec<char> = Vec::new();
    let mut rest = n;
    if rest == 0 {
        digits.push('0');
        proof {
            assert(digits@ =~= seq!['0']);
        }
        return chars_to_string(&digits);
    }
    // Collect the digits least significant first, then reverse.
    while rest > 0
        invariant
            rest > 0 ==> dec_spec(n as int) == dec_spec(rest as int) + digits@.reverse(),
            rest == 0 ==> dec_spec(n as int) == digits@.reverse(),
        decreases rest,
    {
        let d = rest % 10;
        let c: char = if d == 0 {
            '0'
        } else if d == 1 {
            '1'
        } else if d == 2 {
            '2'
        } else if d == 3 {
            '3'
        } else if d == 4 {
            '4'
        } else if d == 5 {
            '5'
        } else if d == 6 {
            '6'
        } else if d == 7 {
            '7'
        } else if d == 8 {
            '8'
        } else {
            '9'
        };
        let ghost before = digits@;
        digits.push(c);
        proof {
            assert(c == dec_digit(rest as int % 10));
            assert(digits@.reverse() =~= seq![c] + before.reverse());
            if rest >= 10 {
                assert(dec_spec(rest as int) == dec_spec(rest as int / 10).push(
                    dec_digit(rest as int % 10),
                ));
                assert(dec_spec(rest as int / 10).push(c) + before.reverse() =~= dec_spec(
                    rest as int / 10,
                ) + (seq![c] + before.reverse()));
            } else {
                assert(dec_spec(rest as int) =~= seq![c]);
                assert(seq![c] + before.reverse() =~= dec_spec(rest as int) + before.reverse());
                assert(dec_spec(n as int) == digits@.reverse());
            }
        }
        rest = rest / 10;
    }
    let mut out: Vec<char> = Vec::new();
    let m = digits.len();
    let mut i: usize = m;
    while i > 0
        invariant
            m == digits@.len(),
            i <= m,
            out@ == digits@.subrange(i as int, m as int).reverse(),
        decreases i,
    {
        i = i - 1;
        out.push(digits[i]);
        proof {
            assert(out@ =~= digits@.subrange(i as int, m as int).reverse());
        }
    }
    proof {
        assert(digits@.subrange(0, m as int) =~= digits@);
    }
    chars_to_string(&out)
}

} // verus!
