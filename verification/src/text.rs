//! Verified text utilities over `Seq<char>` views: comparisons, prefix and
//! suffix tests, substring search, concatenation and decimal rendering of
//! small integers.  Venue frame classification and store-key construction are
//! built on these.

use vstd::prelude::*;
use vstd::string::StrSliceExecFns;
use vstd::string::StringExecFns;

verus! {

/// Whether `needle` occurs in `hay` starting at offset `at`.
pub open spec fn matches_at(hay: Seq<char>, needle: Seq<char>, at: int) -> bool {
    &&& 0 <= at
    &&& at + needle.len() <= hay.len()
    &&& hay.subrange(at, at + needle.len() as int) == needle
}

/// Whether `needle` occurs anywhere in `hay`.
pub open spec fn spec_contains(hay: Seq<char>, needle: Seq<char>) -> bool {
    exists|at: int| matches_at(hay, needle, at)
}

/// Character-for-character string equality.
pub fn str_eq_str(a: &str, b: &str) -> (r: bool)
    ensures
        r == (a@ == b@),
{
    let a_len = a.unicode_len();
    let b_len = b.unicode_len();
    if a_len != b_len {
        assert(a@ != b@);
        return false;
    }
    let mut i: usize = 0;
    while i < a_len
        invariant
            i <= a_len,
            a_len == a@.len(),
            a_len == b@.len(),
            forall|k: int| 0 <= k < i ==> a@[k] == b@[k],
        decreases a_len - i,
    {
        if a.get_char(i) != b.get_char(i) {
            return false;
        }
        i = i + 1;
    }
    proof {
        assert(a@ =~= b@);
    }
    true
}

/// Whether `p` is a prefix of `s`.
pub fn starts_with_str(s: &str, p: &str) -> (r: bool)
    ensures
        r == p@.is_prefix_of(s@),
{
    let s_len = s.unicode_len();
    let p_len = p.unicode_len();
    if p_len > s_len {
        return false;
    }
    let mut i: usize = 0;
    while i < p_len
        invariant
            i <= p_len,
            p_len == p@.len(),
            s_len == s@.len(),
            p_len <= s_len,
            forall|k: int| 0 <= k < i ==> s@[k] == p@[k],
        decreases p_len - i,
    {
        if s.get_char(i) != p.get_char(i) {
            assert(!p@.is_prefix_of(s@)) by {
                assert(s@.subrange(0, p@.len() as int)[i as int] == s@[i as int]);
            }
            return false;
        }
        i = i + 1;
    }
    proof {
        assert(s@.subrange(0, p@.len() as int) =~= p@);
    }
    true
}

/// Whether `p` is a suffix of `s`.
pub fn ends_with_str(s: &str, p: &str) -> (r: bool)
    ensures
        r == p@.is_suffix_of(s@),
{
    let s_len = s.unicode_len();
    let p_len = p.unicode_len();
    if p_len > s_len {
        return false;
    }
    let base: usize = s_len - p_len;
    let mut i: usize = 0;
    while i < p_len
        invariant
            i <= p_len,
            p_len == p@.len(),
            s_len == s@.len(),
            base == s_len - p_len,
            forall|k: int| 0 <= k < i ==> s@[base + k] == p@[k],
        decreases p_len - i,
    {
        if s.get_char(base + i) != p.get_char(i) {
            assert(!p@.is_suffix_of(s@)) by {
                assert(s@.subrange(base as int, s@.len() as int)[i as int] == s@[base + i]);
            }
            return false;
        }
        i = i + 1;
    }
    proof {
        assert(s@.subrange(base as int, s@.len() as int) =~= p@);
    }
    true
}

/// Whether `needle` occurs anywhere in `hay`.
pub fn contains_str(hay: &str, needle: &str) -> (r: bool)
    ensures
        r == spec_contains(hay@, needle@),
{
    let h_len = hay.unicode_len();
    let n_len = needle.unicode_len();
    if n_len > h_len {
        assert(!spec_contains(hay@, needle@));
        return false;
    }
    let last: usize = h_len - n_len;
    let mut at: usize = 0;
    loop
        invariant
            at <= last,
            h_len == hay@.len(),
            n_len == needle@.len(),
            n_len <= h_len,
            last == h_len - n_len,
            forall|a: int| 0 <= a < at ==> !matches_at(hay@, needle@, a),
        decreases last - at,
    {
        let mut i: usize = 0;
        let mut hit: bool = true;
        while i < n_len
            invariant
                i <= n_len,
                at <= last,
                h_len == hay@.len(),
                n_len == needle@.len(),
                last == h_len - n_len,
                hit ==> forall|k: int| 0 <= k < i ==> hay@[at + k] == needle@[k],
                !hit ==> !matches_at(hay@, needle@, at as int),
            decreases n_len - i,
        {
            if hit && hay.get_char(at + i) != needle.get_char(i) {
                hit = false;
                assert(!matches_at(hay@, needle@, at as int)) by {
                    if matches_at(hay@, needle@, at as int) {
                        assert(hay@.subrange(at as int, at + needle@.len() as int)[i as int]
                            == hay@[at + i]);
                    }
                }
            }
            i = i + 1;
        }
        if hit {
            assert(matches_at(hay@, needle@, at as int)) by {
                assert(hay@.subrange(at as int, at + needle@.len() as int) =~= needle@);
            }
            return true;
        }
        if at == last {
            assert(forall|a: int| matches_at(hay@, needle@, a) ==> 0 <= a <= last);
            return false;
        }
        at = at + 1;
    }
}

/// `s` with the suffix `p` removed, when `p` really is a suffix.
pub fn strip_suffix_str(s: &str, p: &str) -> (r: Option<String>)
    ensures
        match r {
            Some(head) => p@.is_suffix_of(s@) && head@ == s@.subrange(
                0,
                s@.len() - p@.len(),
            ),
            None => !p@.is_suffix_of(s@),
        },
{
    if ends_with_str(s, p) {
        let s_len = s.unicode_len();
        let p_len = p.unicode_len();
        let head = s.substring_char(0, s_len - p_len);
        Some(head.to_owned())
    } else {
        None
    }
}

/// The concatenation of two string slices as an owned string.
pub fn concat_str(a: &str, b: &str) -> (r: String)
    ensures
        r@ == a@ + b@,
{
    let mut out = String::from_str(a);
    out.append(b);
    out
}

/// The decimal digit character for a value below ten.
pub open spec fn spec_digit_char(d: int) -> char {
    if d == 0 {
        '0'
    } else if d == 1 {
        '1'
    } else if d == 2 {
        '2'
    } else if d == 3 {
        '3'
    } else if d == 4 {
        '4'
    } else if d == 5 {
        '5'
    } else if d == 6 {
        '6'
    } else if d == 7 {
        '7'
    } else if d == 8 {
        '8'
    } else {
        '9'
    }
}

/// The decimal rendering of a nonnegative integer, most significant digit first.
pub open spec fn spec_decimal_digits(n: int) -> Seq<char>
    decreases n,
{
    if n < 10 {
        seq![spec_digit_char(n)]
    } else {
        spec_decimal_digits(n / 10).push(spec_digit_char(n % 10))
    }
}

/// A one-character string slice for a digit value.
fn digit_str(d: u32) -> (r: &'static str)
    requires
        d < 10,
    ensures
        r@ =~= seq![spec_digit_char(d as int)],
{
    proof {
        reveal_strlit("0");
        reveal_strlit("1");
        reveal_strlit("2");
        reveal_strlit("3");
        reveal_strlit("4");
        reveal_strlit("5");
        reveal_strlit("6");
        reveal_strlit("7");
        reveal_strlit("8");
        reveal_strlit("9");
    }
    if d == 0 {
        "0"
    } else if d == 1 {
        "1"
    } else if d == 2 {
        "2"
    } else if d == 3 {
        "3"
    } else if d == 4 {
        "4"
    } else if d == 5 {
        "5"
    } else if d == 6 {
        "6"
    } else if d == 7 {
        "7"
    } else if d == 8 {
        "8"
    } else {
        "9"
    }
}

/// Renders a nonnegative integer in decimal.
pub fn u32_to_string(n: u32) -> (r: String)
    ensures
        r@ == spec_decimal_digits(n as int),
    decreases n,
{
    if n < 10 {
        let s = digit_str(n);
        String::from_str(s)
    } else {
        let mut head = u32_to_string(n / 10);
        head.append(digit_str(n % 10));
        proof {
            assert(head@ =~= spec_decimal_digits(n as int));
        }
        head
    }
}

} // verus!
