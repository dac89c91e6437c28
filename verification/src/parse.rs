//! Verified parsing of decimal-formatted numeric strings.
//!
//! Venue feeds deliver every price and rate as a decimal string such as
//! `"100.5"` or `"-0.0000125"`.  `parse_scaled` turns such a string into a
//! scaled 128-bit integer: the grammar is an optional minus sign, one or more
//! digits, and optionally a dot followed by one or more digits.  Fractional
//! digits beyond the requested scale are truncated toward zero; a value whose
//! magnitude exceeds the given cap, or a string outside the grammar, is
//! rejected.

use vstd::prelude::*;
use vstd::arithmetic::div_mod::lemma_fundamental_div_mod;
use vstd::string::StrSliceExecFns;
use crate::num::{Price, Rate, MAX_PRICE_RAW, RATE_SCALE};

verus! {

/// Whether a character is a decimal digit.
pub open spec fn is_digit_char(c: char) -> bool {
    48 <= c as int <= 57
}

/// The numeric value of a digit character.
pub open spec fn digit_of(c: char) -> int {
    c as int - 48
}

/// Whether every character of the sequence is a decimal digit.
pub open spec fn all_digits(s: Seq<char>) -> bool {
    forall|i: int| 0 <= i < s.len() ==> is_digit_char(s[i])
}

/// The value of a digit sequence read in base ten.
pub open spec fn digits_val(s: Seq<char>) -> int
    decreases s.len(),
{
    if s.len() == 0 {
        0
    } else {
        digits_val(s.drop_last()) * 10 + digit_of(s.last())
    }
}

/// Ten to the power `k`.
pub open spec fn pow10(k: nat) -> int
    decreases k,
{
    if k == 0 {
        1
    } else {
        10 * pow10((k - 1) as nat)
    }
}

/// Splits a sequence at its first dot, when it has one.
pub open spec fn split_at_dot(t: Seq<char>) -> Option<(Seq<char>, Seq<char>)>
    decreases t.len(),
{
    if t.len() == 0 {
        None
    } else if t[0] == '.' {
        Some((Seq::empty(), t.skip(1)))
    } else {
        match split_at_dot(t.skip(1)) {
            None => None,
            Some(parts) => Some((seq![t[0]] + parts.0, parts.1)),
        }
    }
}

/// Whether an unsigned decimal literal is well formed: digits, or
/// digits-dot-digits, each digit group nonempty.
pub open spec fn valid_unsigned_decimal(t: Seq<char>) -> bool {
    match split_at_dot(t) {
        None => t.len() > 0 && all_digits(t),
        Some(parts) => parts.0.len() > 0 && parts.1.len() > 0 && all_digits(parts.0)
            && all_digits(parts.1),
    }
}

/// The fractional digits scaled to `d` decimal places, truncating extras.
pub open spec fn frac_scaled(fp: Seq<char>, d: int) -> int {
    if fp.len() >= d {
        digits_val(fp.take(d))
    } else {
        digits_val(fp) * pow10((d - fp.len()) as nat)
    }
}

/// The magnitude of a well-formed unsigned decimal literal at `d` decimal
/// places.
pub open spec fn unsigned_scaled(t: Seq<char>, d: int) -> int {
    match split_at_dot(t) {
        None => digits_val(t) * pow10(d as nat),
        Some(parts) => digits_val(parts.0) * pow10(d as nat) + frac_scaled(parts.1, d),
    }
}

/// What parsing a signed decimal string at `d` decimal places with magnitude
/// cap `cap` yields: the truncated scaled value, or nothing for a malformed
/// or out-of-range string.
pub open spec fn spec_parse_scaled(s: Seq<char>, d: int, cap: int) -> Option<i128> {
    let neg = s.len() > 0 && s[0] == '-';
    let t = if neg {
        s.skip(1)
    } else {
        s
    };
    if valid_unsigned_decimal(t) {
        let v = unsigned_scaled(t, d);
        if v <= cap {
            Some((if neg {
                -v
            } else {
                v
            }) as i128)
        } else {
            None
        }
    } else {
        None
    }
}

/// A digit sequence has a nonnegative value.
proof fn lemma_digits_val_nonneg(s: Seq<char>)
    requires
        all_digits(s),
    ensures
        digits_val(s) >= 0,
    decreases s.len(),
{
    if s.len() > 0 {
        assert(all_digits(s.drop_last()));
        lemma_digits_val_nonneg(s.drop_last());
    }
}

/// A digit sequence's value is below ten to its length.
proof fn lemma_digits_val_bound(s: Seq<char>)
    requires
        all_digits(s),
    ensures
        digits_val(s) < pow10(s.len()),
    decreases s.len(),
{
    if s.len() == 0 {
    } else {
        assert(all_digits(s.drop_last()));
        lemma_digits_val_bound(s.drop_last());
        lemma_pow10_pos(((s.len() - 1)) as nat);
    }
}

/// Ten to any power is positive.
proof fn lemma_pow10_pos(k: nat)
    ensures
        pow10(k) >= 1,
    decreases k,
{
    if k > 0 {
        lemma_pow10_pos((k - 1) as nat);
    }
}

/// Extending a digit sequence on the right cannot decrease its value.
proof fn lemma_digits_val_prefix_le(s: Seq<char>, m: int)
    requires
        all_digits(s),
        0 <= m <= s.len(),
    ensures
        digits_val(s.take(m)) <= digits_val(s),
    decreases s.len() - m,
{
    if m == s.len() {
        assert(s.take(m) =~= s);
    } else {
        lemma_digits_val_prefix_le(s, m + 1);
        assert(s.take(m + 1).drop_last() =~= s.take(m));
        assert(all_digits(s.take(m)));
        lemma_digits_val_nonneg(s.take(m));
        assert(digits_val(s.take(m + 1)) == digits_val(s.take(m)) * 10 + digit_of(s[m]));
        assert(digits_val(s.take(m)) * 10 >= digits_val(s.take(m))) by (nonlinear_arith)
            requires
                digits_val(s.take(m)) >= 0,
        ;
    }
}

/// If `a` exceeds `c / p` then `a * p` exceeds `c`.
proof fn lemma_gt_div_scale(a: int, c: int, p: int)
    requires
        p > 0,
        c >= 0,
        a > c / p,
    ensures
        a * p > c,
{
    lemma_fundamental_div_mod(c, p);
    assert(a * p >= (c / p + 1) * p) by (nonlinear_arith)
        requires
            a >= c / p + 1,
            p > 0,
    ;
    assert((c / p + 1) * p == (c / p) * p + p) by (nonlinear_arith);
}

/// Locates the first dot of the unsigned body: if the first `k` characters
/// after the start are dot-free, the split is determined.
proof fn lemma_split_at_dot_at(t: Seq<char>, k: int)
    requires
        0 <= k <= t.len(),
        forall|j: int| 0 <= j < k ==> t[j] != '.',
    ensures
        k == t.len() ==> split_at_dot(t) is None,
        k < t.len() && t[k] == '.' ==> split_at_dot(t) == Some((t.take(k), t.skip(k + 1))),
    decreases k,
{
    if k == 0 {
        if 0 < t.len() && t[0] == '.' {
            assert(t.take(0) =~= Seq::<char>::empty());
        }
    } else {
        let u = t.skip(1);
        assert(forall|j: int| 0 <= j < k - 1 ==> u[j] != '.');
        lemma_split_at_dot_at(u, k - 1);
        if k == t.len() {
            assert(split_at_dot(u) is None);
        } else if t[k] == '.' {
            assert(u[k - 1] == '.');
            assert(split_at_dot(u) == Some((u.take(k - 1), u.skip(k))));
            assert(seq![t[0]] + u.take(k - 1) =~= t.take(k));
            assert(u.skip(k) =~= t.skip(k + 1));
        }
    }
}

/// The value of one more scanned digit.
proof fn lemma_digits_val_step(s: Seq<char>, m: int)
    requires
        0 <= m < s.len(),
    ensures
        digits_val(s.take(m + 1)) == digits_val(s.take(m)) * 10 + digit_of(s[m]),
{
    assert(s.take(m + 1).drop_last() =~= s.take(m));
    assert(s.take(m + 1).last() == s[m]);
}

/// The index of the first occurrence of `c` in `s` at or after `from`.
fn find_char_from(s: &str, from: usize, c: char) -> (r: Option<usize>)
    requires
        from <= s@.len(),
    ensures
        match r {
            Some(i) => from <= i < s@.len() && s@[i as int] == c && (forall|k: int|
                from <= k < i ==> s@[k] != c),
            None => forall|k: int| from <= k < s@.len() ==> s@[k] != c,
        },
{
    let len = s.unicode_len();
    let mut j: usize = from;
    while j < len
        invariant
            from <= j <= len,
            len == s@.len(),
            forall|k: int| from <= k < j ==> s@[k] != c,
        decreases len - j,
    {
        if s.get_char(j) == c {
            return Some(j);
        }
        j = j + 1;
    }
    None
}

/// Ten to a small power, executable.
fn pow10_exec(k: usize) -> (r: i128)
    requires
        k <= 15,
    ensures
        r == pow10(k as nat),
        1 <= r <= 1_000_000_000_000_000,
{
    let mut r: i128 = 1;
    let mut i: usize = 0;
    while i < k
        invariant
            i <= k <= 15,
            r == pow10(i as nat),
            1 <= r <= 1_000_000_000_000_000,
        decreases k - i,
    {
        proof {
            lemma_pow10_bound(k as nat);
            lemma_pow10_bound(i as nat);
            lemma_pow10_mono((i + 1) as nat, k as nat);
        }
        r = r * 10;
        i = i + 1;
    }
    r
}

/// Ten to a power of at most fifteen is at most `10^15`.
proof fn lemma_pow10_bound(k: nat)
    requires
        k <= 15,
    ensures
        pow10(k) <= 1_000_000_000_000_000,
{
    lemma_pow10_mono(k, 15);
    assert(pow10(15) == 1_000_000_000_000_000) by {
        reveal_with_fuel(pow10, 16);
    }
}

/// Ten to the power is monotone in the exponent.
proof fn lemma_pow10_mono(a: nat, b: nat)
    requires
        a <= b,
    ensures
        pow10(a) <= pow10(b),
    decreases b,
{
    if a < b {
        lemma_pow10_mono(a, (b - 1) as nat);
        lemma_pow10_pos((b - 1) as nat);
    }
}

/// Parses a signed decimal string at `frac_digits` decimal places, rejecting
/// magnitudes above `cap`; returns exactly what `spec_parse_scaled` denotes.
#[verifier::loop_isolation(false)]
#[verifier::rlimit(60)]
pub fn parse_scaled(s: &str, frac_digits: usize, cap: i128) -> (r: Option<i128>)
    requires
        frac_digits <= 9,
        0 < cap <= 1_000_000_000_000_000,
    ensures
        r == spec_parse_scaled(s@, frac_digits as int, cap as int),
        r matches Some(v) ==> -cap <= v <= cap,
{
    let len = s.unicode_len();
    let mut start: usize = 0;
    let mut neg: bool = false;
    if len > 0 && s.get_char(0) == '-' {
        neg = true;
        start = 1;
    }
    proof {
        assert(s@.skip(0) =~= s@);
    }
    let ghost t: Seq<char> = s@.skip(start as int);
    if start == len {
        // The body is empty, so the grammar rejects the string.
        return None;
    }
    let p = pow10_exec(frac_digits);
    let capdiv: i128 = crate::num::div_nonneg(cap, p);
    let dotpos = find_char_from(s, start, '.');
    let ipend: usize = match dotpos {
        Some(i) => i,
        None => len,
    };
    proof {
        lemma_split_at_dot_at(t, ipend - start);
    }
    if ipend == start {
        // A leading dot: the integer part is empty.
        return None;
    }
    let ghost ip: Seq<char> = t.take(ipend - start);
    let mut acc: i128 = 0;
    let mut j: usize = start;
    while j < ipend
        invariant
            start <= j <= ipend <= len,
            len == s@.len(),
            t == s@.skip(start as int),
            ip == t.take(ipend - start),
            start < ipend,
            0 < cap <= 1_000_000_000_000_000,
            capdiv == cap as int / p as int,
            1 <= p <= 1_000_000_000_000_000,
            p == pow10(frac_digits as nat),
            all_digits(t.take(j - start)),
            acc == digits_val(t.take(j - start)),
            0 <= acc <= capdiv * 10 + 9,
            (ipend < len ==> t[ipend - start] == '.' && split_at_dot(t) == Some(
                (ip, t.skip(ipend - start + 1)),
            )),
            (ipend == len ==> split_at_dot(t) is None),
        decreases ipend - j,
    {
        let c = s.get_char(j);
        let cv = c as u32;
        if cv < 48 || cv > 57 {
            // A non-digit inside the integer part: malformed.
            proof {
                assert(t[j - start] == s@[j as int]);
                if valid_unsigned_decimal(t) {
                    if ipend < len {
                        assert(!is_digit_char(ip[j - start]));
                    } else {
                        assert(!is_digit_char(t[j - start]));
                    }
                }
            }
            return None;
        }
        if acc > capdiv {
            // Even ignoring later digits the magnitude already exceeds the cap.
            proof {
                if valid_unsigned_decimal(t) {
                    let whole = if ipend < len {
                        ip
                    } else {
                        t
                    };
                    assert(t.take(j - start) =~= whole.take(j - start));
                    lemma_digits_val_prefix_le(whole, j - start);
                    lemma_gt_div_scale(digits_val(whole), cap as int, p as int);
                    lemma_pow10_pos(frac_digits as nat);
                    if ipend < len {
                        let fp = t.skip(ipend - start + 1);
                        assert(all_digits(fp));
                        lemma_frac_scaled_nonneg(fp, frac_digits as int);
                    }
                }
            }
            return None;
        }
        proof {
            lemma_digits_val_step(t, j - start);
        }
        acc = acc * 10 + ((cv - 48) as i128);
        j = j + 1;
        proof {
            assert(all_digits(t.take(j - start))) by {
                assert(forall|k: int|
                    0 <= k < j - start ==> t.take(j - start)[k] == t[k]);
            }
        }
    }
    assert(acc == digits_val(ip));
    assert(all_digits(ip));
    let magnitude: i128;
    match dotpos {
        None => {
            proof {
                assert(ip =~= t);
                lemma_mul_le_cap(acc as int, capdiv as int, p as int, cap as int);
            }
            magnitude = acc * p;
            assert(valid_unsigned_decimal(t));
            assert(magnitude == unsigned_scaled(t, frac_digits as int));
            assert(magnitude >= 0);
        },
        Some(d) => {
            let fpstart: usize = d + 1;
            if fpstart == len {
                // A trailing dot: the fractional part is empty.
                return None;
            }
            let ghost fp: Seq<char> = t.skip(ipend - start + 1);
            let mut facc: i128 = 0;
            let mut taken: usize = 0;
            let mut k: usize = fpstart;
            while k < len
                invariant
                    fpstart <= k <= len,
                    len == s@.len(),
                    t == s@.skip(start as int),
                    start < fpstart,
                    fpstart == ipend + 1,
                    ipend - start < t.len(),
                    fp == t.skip(ipend - start + 1),
                    fp.len() == len - fpstart,
                    frac_digits <= 9,
                    split_at_dot(t) == Some((ip, fp)),
                    taken == if k - fpstart <= frac_digits {
                        k - fpstart
                    } else {
                        frac_digits as int
                    },
                    all_digits(fp.take(k - fpstart)),
                    facc == digits_val(fp.take(taken as int)),
                    0 <= facc < pow10(taken as nat),
                    pow10(taken as nat) <= pow10(frac_digits as nat),
                decreases len - k,
            {
                let c = s.get_char(k);
                let cv = c as u32;
                if cv < 48 || cv > 57 {
                    // A non-digit in the fractional part: malformed.
                    proof {
                        assert(fp[k - fpstart] == s@[k as int]);
                        if valid_unsigned_decimal(t) {
                            assert(!is_digit_char(fp[k - fpstart]));
                        }
                    }
                    return None;
                }
                if taken < frac_digits {
                    proof {
                        lemma_digits_val_step(fp, taken as int);
                        assert(fp.take(taken as int + 1).drop_last() =~= fp.take(taken as int));
                        lemma_pow10_mono((taken + 1) as nat, frac_digits as nat);
                        lemma_pow10_bound(frac_digits as nat);
                        assert(fp[taken as int] == s@[k as int]);
                    }
                    facc = facc * 10 + ((cv - 48) as i128);
                    taken = taken + 1;
                }
                k = k + 1;
                proof {
                    assert(all_digits(fp.take(k - fpstart))) by {
                        assert(forall|m: int|
                            0 <= m < k - fpstart ==> fp.take(k - fpstart)[m] == fp[m]);
                    }
                }
            }
            assert(fp =~= fp.take(fp.len() as int));
            assert(all_digits(fp));
            let fscaled: i128;
            if len - fpstart >= frac_digits {
                fscaled = facc;
            } else {
                proof {
                    lemma_digits_val_nonneg(fp);
                    lemma_digits_val_bound(fp);
                    lemma_pow10_bound((frac_digits - fp.len()) as nat);
                    assert(fp.take(taken as int) =~= fp);
                    lemma_mul_pow_bound(
                        facc as int,
                        fp.len() as int,
                        frac_digits as int,
                    );
                }
                fscaled = facc * pow10_exec(frac_digits - (len - fpstart));
            }
            proof {
                lemma_mul_le_cap(acc as int, capdiv as int, p as int, cap as int);
                lemma_frac_scaled_nonneg(fp, frac_digits as int);
                lemma_frac_scaled_bound(fp, frac_digits as int);
                if len - fpstart >= frac_digits {
                    assert(fp.take(frac_digits as int) == fp.take(taken as int));
                }
            }
            magnitude = acc * p + fscaled;
            assert(valid_unsigned_decimal(t));
            assert(magnitude == unsigned_scaled(t, frac_digits as int));
            assert(magnitude >= 0);
        },
    }
    if magnitude > cap {
        return None;
    }
    if neg {
        Some(-magnitude)
    } else {
        Some(magnitude)
    }
}

/// The scaled fraction is nonnegative when its digits are digits.
proof fn lemma_frac_scaled_nonneg(fp: Seq<char>, d: int)
    requires
        all_digits(fp),
        d >= 0,
    ensures
        frac_scaled(fp, d) >= 0,
{
    if fp.len() >= d {
        assert(all_digits(fp.take(d)));
        lemma_digits_val_nonneg(fp.take(d));
    } else {
        lemma_digits_val_nonneg(fp);
        lemma_pow10_pos((d - fp.len()) as nat);
        assert(digits_val(fp) * pow10((d - fp.len()) as nat) >= 0) by (nonlinear_arith)
            requires
                digits_val(fp) >= 0,
                pow10((d - fp.len()) as nat) >= 1,
        ;
    }
}

/// The scaled fraction stays below one whole unit.
proof fn lemma_frac_scaled_bound(fp: Seq<char>, d: int)
    requires
        all_digits(fp),
        0 <= d,
    ensures
        frac_scaled(fp, d) < pow10(d as nat),
{
    if fp.len() >= d {
        assert(all_digits(fp.take(d)));
        lemma_digits_val_bound(fp.take(d));
    } else {
        lemma_digits_val_nonneg(fp);
        lemma_digits_val_bound(fp);
        lemma_mul_pow_bound(digits_val(fp), fp.len() as int, d);
    }
}

/// `v < 10^a` implies `v * 10^(d-a) < 10^d`.
proof fn lemma_mul_pow_bound(v: int, a: int, d: int)
    requires
        0 <= a <= d,
        0 <= v < pow10(a as nat),
    ensures
        v * pow10((d - a) as nat) < pow10(d as nat),
{
    lemma_pow10_split(a as nat, (d - a) as nat);
    lemma_pow10_pos((d - a) as nat);
    assert(v * pow10((d - a) as nat) < pow10(a as nat) * pow10((d - a) as nat))
        by (nonlinear_arith)
        requires
            0 <= v < pow10(a as nat),
            pow10((d - a) as nat) >= 1,
    ;
}

/// Powers of ten multiply by adding exponents.
proof fn lemma_pow10_split(a: nat, b: nat)
    ensures
        pow10(a) * pow10(b) == pow10((a + b) as nat),
    decreases a,
{
    if a == 0 {
    } else {
        lemma_pow10_split((a - 1) as nat, b);
        assert(pow10(a) * pow10(b) == 10 * (pow10((a - 1) as nat) * pow10(b)))
            by (nonlinear_arith)
            requires
                pow10(a) == 10 * pow10((a - 1) as nat),
        ;
    }
}

/// With `x` at most `cap / p` (give or take one scan step) the product stays
/// within an i128.
proof fn lemma_mul_le_cap(x: int, capdiv: int, p: int, cap: int)
    requires
        0 <= x <= capdiv * 10 + 9,
        capdiv == cap / p,
        0 < p <= 1_000_000_000_000_000,
        0 < cap <= 1_000_000_000_000_000,
    ensures
        0 <= x * p <= 100_000_000_000_000_000_000_000_000_000_000,
{
    lemma_fundamental_div_mod(cap, p);
    assert(capdiv <= cap) by (nonlinear_arith)
        requires
            capdiv == cap / p,
            0 < p,
            0 < cap,
    ;
    assert(x * p <= (capdiv * 10 + 9) * p) by (nonlinear_arith)
        requires
            0 <= x <= capdiv * 10 + 9,
            0 < p,
    ;
    assert((capdiv * 10 + 9) * p <= 100_000_000_000_000_000_000_000_000_000_000)
        by (nonlinear_arith)
        requires
            0 <= capdiv <= 1_000_000_000_000_000,
            0 < p <= 1_000_000_000_000_000,
    ;
    assert(0 <= x * p) by (nonlinear_arith)
        requires
            0 <= x,
            0 < p,
    ;
}

/// What parsing a price string yields: a nonnegative in-range price.
pub open spec fn spec_parse_price(s: Seq<char>) -> Option<Price> {
    match spec_parse_scaled(s, 6, MAX_PRICE_RAW as int) {
        Some(v) => if v >= 0 {
            Some(Price { raw: v })
        } else {
            None
        },
        None => None,
    }
}

/// Parses a price string; negative or out-of-range prices are rejected.
pub fn parse_price(s: &str) -> (r: Option<Price>)
    ensures
        r == spec_parse_price(s@),
        r matches Some(p) ==> p.wf(),
{
    match parse_scaled(s, 6, MAX_PRICE_RAW) {
        Some(v) => {
            if v >= 0 {
                Some(Price { raw: v })
            } else {
                None
            }
        },
        None => None,
    }
}

/// What parsing a rate string yields: a signed rate of magnitude at most one.
pub open spec fn spec_parse_rate(s: Seq<char>) -> Option<Rate> {
    match spec_parse_scaled(s, 9, RATE_SCALE as int) {
        Some(v) => Some(Rate { raw: v }),
        None => None,
    }
}

/// Parses a signed rate string; magnitudes above 100% are rejected.
pub fn parse_rate(s: &str) -> (r: Option<Rate>)
    ensures
        r == spec_parse_rate(s@),
        r matches Some(f) ==> f.wf(),
{
    match parse_scaled(s, 9, RATE_SCALE) {
        Some(v) => Some(Rate { raw: v }),
        None => None,
    }
}

/// What parsing a plain unsigned integer string yields.
pub open spec fn spec_parse_u32(s: Seq<char>) -> Option<u32> {
    if s.len() > 0 && all_digits(s) && digits_val(s) <= u32::MAX {
        Some(digits_val(s) as u32)
    } else {
        None
    }
}

/// Parses a plain digit string into a 32-bit integer.
#[verifier::loop_isolation(false)]
pub fn parse_plain_u32(s: &str) -> (r: Option<u32>)
    ensures
        r == spec_parse_u32(s@),
{
    let len = s.unicode_len();
    if len == 0 {
        return None;
    }
    let mut acc: u64 = 0;
    let mut j: usize = 0;
    while j < len
        invariant
            j <= len,
            len == s@.len(),
            len > 0,
            all_digits(s@.take(j as int)),
            acc == digits_val(s@.take(j as int)),
            acc <= 0xffff_ffff,
        decreases len - j,
    {
        let c = s.get_char(j);
        let cv = c as u32;
        if cv < 48 || cv > 57 {
            assert(!is_digit_char(s@[j as int]));
            return None;
        }
        if acc > 0xffff_ffff / 10 || (acc == 0xffff_ffff / 10 && cv - 48 > 0xffff_ffff % 10) {
            // The value no longer fits in 32 bits, and later digits only grow it.
            proof {
                lemma_digits_val_step(s@, j as int);
                if s@.len() > 0 && all_digits(s@) {
                    lemma_digits_val_prefix_le(s@, j + 1);
                }
            }
            return None;
        }
        proof {
            lemma_digits_val_step(s@, j as int);
        }
        acc = acc * 10 + ((cv - 48) as u64);
        j = j + 1;
        proof {
            assert(all_digits(s@.take(j as int))) by {
                assert(forall|k: int| 0 <= k < j ==> s@.take(j as int)[k] == s@[k]);
            }
        }
    }
    assert(s@.take(len as int) =~= s@);
    Some(acc as u32)
}

} // verus!
