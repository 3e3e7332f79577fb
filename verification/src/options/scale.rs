//! The device scale factor of a hidden benchmark run, read as an exact
//! decimal and turned into the DPI the window is created with.
use crate::text::{all_digits, chars_of, copy_range, digits_value, find_char, first_index_of, is_digit, unsigned_body};
use vstd::prelude::*;

verus! {

/// Fraction digits that take part in the value; later ones only need to be digits.
pub const SCALE_FRACTION_DIGITS: usize = 18;

/// The smallest and largest scale factors a run accepts.
pub const MIN_DEVICE_SCALE: u64 = 1;
pub const MAX_DEVICE_SCALE: u64 = 4;

pub open spec fn pow10(k: nat) -> nat
    decreases k,
{
    if k == 0 {
        1
    } else {
        10 * pow10((k - 1) as nat)
    }
}

/// The whole and fractional digits of `[+]digits[.digits]` (either side may be
/// empty, not both).
pub open spec fn scale_parts(s: Seq<char>) -> Option<(Seq<char>, Seq<char>)> {
    let body = unsigned_body(s);
    let (whole, fraction) = match first_index_of(body, '.') {
        Some(d) => (body.take(d), body.skip(d + 1)),
        None => (body, Seq::<char>::empty()),
    };
    if whole.len() + fraction.len() > 0 && all_digits(whole) && all_digits(fraction) {
        Some((whole, fraction))
    } else {
        None
    }
}

/// The DPI for scale text `s`: 96 times the scale, rounded to the nearest
/// whole DPI (halves up), when the scale lies in `1..=4`.
pub open spec fn spec_scale_dpi(s: Seq<char>) -> Option<u32> {
    match scale_parts(s) {
        None => None,
        Some((whole, fraction)) => {
            let k: nat = if fraction.len() > SCALE_FRACTION_DIGITS { SCALE_FRACTION_DIGITS as nat } else { fraction.len() };
            let den = pow10(k);
            let num = digits_value(whole) * den + digits_value(fraction.take(k as int));
            if MIN_DEVICE_SCALE * den <= num <= MAX_DEVICE_SCALE * den {
                Some(((2 * 96 * num + den) / (2 * den)) as u32)
            } else {
                None
            }
        },
    }
}

/// Whether `v` is all digits, and its value capped at 5.
fn capped_digits(v: &[char]) -> (r: (bool, u64))
    ensures
        r.0 == all_digits(v@),
        r.0 ==> r.1 == (if digits_value(v@) >= 5 { 5 } else { digits_value(v@) }),
{
    let mut acc: u64 = 0;
    let mut i: usize = 0;
    while i < v.len()
        invariant
            i <= v.len(),
            all_digits(v@.take(i as int)),
            acc == (if digits_value(v@.take(i as int)) >= 5 { 5 } else { digits_value(v@.take(i as int)) }),
        decreases v.len() - i,
    {
        let c = v[i];
        if !('0' <= c && c <= '9') {
            assert(!is_digit(v@[i as int]));
            return (false, 0);
        }
        proof {
            assert(v@.take(i + 1).drop_last() =~= v@.take(i as int));
            assert(v@.take(i + 1).last() == c);
            assert(all_digits(v@.take(i + 1)));
        }
        let d = (c as u32 - '0' as u32) as u64;
        if acc >= 5 {
            acc = 5;
        } else {
            let n = acc * 10 + d;
            acc = if n >= 5 { 5 } else { n };
        }
        i = i + 1;
    }
    assert(v@.take(v.len() as int) =~= v@);
    (true, acc)
}

/// Whether `v` is all digits, and the value of its first `k` digits.
fn leading_digits(v: &[char], k: usize) -> (r: (bool, u64))
    requires
        k <= SCALE_FRACTION_DIGITS,
        k <= v.len(),
    ensures
        r.0 == all_digits(v@),
        r.0 ==> r.1 == digits_value(v@.take(k as int)),
{
    let mut acc: u64 = 0;
    let mut i: usize = 0;
    while i < v.len()
        invariant
            i <= v.len(),
            k <= SCALE_FRACTION_DIGITS,
            k <= v.len(),
            all_digits(v@.take(i as int)),
            acc == digits_value(v@.take(if i <= k { i as int } else { k as int })),
            acc < pow10(if i <= k { i as nat } else { k as nat }),
        decreases v.len() - i,
    {
        let c = v[i];
        if !('0' <= c && c <= '9') {
            assert(!is_digit(v@[i as int]));
            return (false, 0);
        }
        proof {
            assert(v@.take(i + 1).drop_last() =~= v@.take(i as int));
            assert(v@.take(i + 1).last() == c);
            assert(all_digits(v@.take(i + 1)));
        }
        if i < k {
            let d = (c as u32 - '0' as u32) as u64;
            proof {
                lemma_pow10_bound(i as nat);
                assert(acc * 10 + d < 10 * pow10(i as nat)) by (nonlinear_arith)
                    requires
                        acc < pow10(i as nat),
                        d < 10,
                ;
            }
            acc = acc * 10 + d;
        }
        i = i + 1;
    }
    assert(v@.take(v.len() as int) =~= v@);
    (true, acc)
}

proof fn lemma_pow10_grows(k: nat)
    ensures
        1 <= pow10(k) <= pow10(k + 1),
    decreases k,
{
    if k > 0 {
        lemma_pow10_grows((k - 1) as nat);
    }
}

proof fn lemma_pow10_bound(k: nat)
    requires
        k <= SCALE_FRACTION_DIGITS,
    ensures
        1 <= pow10(k) <= 1_000_000_000_000_000_000,
    decreases SCALE_FRACTION_DIGITS - k,
{
    lemma_pow10_grows(k);
    if k < SCALE_FRACTION_DIGITS {
        lemma_pow10_bound(k + 1);
    } else {
        reveal_with_fuel(pow10, 19);
        assert(pow10(18) == 1_000_000_000_000_000_000);
    }
}

fn power_of_ten(k: usize) -> (p: u64)
    requires
        k <= SCALE_FRACTION_DIGITS,
    ensures
        p == pow10(k as nat),
{
    let mut p: u64 = 1;
    let mut i: usize = 0;
    while i < k
        invariant
            i <= k <= SCALE_FRACTION_DIGITS,
            p == pow10(i as nat),
        decreases k - i,
    {
        proof {
            lemma_pow10_bound((i + 1) as nat);
        }
        p = p * 10;
        i = i + 1;
    }
    p
}

/// Reads a device scale factor and gives the DPI it stands for.
pub fn scale_dpi(value: &str) -> (r: Option<u32>)
    ensures
        r == spec_scale_dpi(value@),
{
    let v = chars_of(value);
    let from: usize = if v.len() > 0 && v[0] == '+' { 1 } else { 0 };
    let body = copy_range(v.as_slice(), from, v.len());
    assert(body@ =~= unsigned_body(value@));
    let (whole, fraction) = match find_char(body.as_slice(), '.') {
        Some(d) => (copy_range(body.as_slice(), 0, d), copy_range(body.as_slice(), d + 1, body.len())),
        None => (body.clone(), Vec::new()),
    };
    proof {
        match first_index_of(body@, '.') {
            Some(d) => {
                assert(whole@ =~= body@.take(d));
                assert(fraction@ =~= body@.skip(d + 1));
            },
            None => {
                assert(fraction@ =~= Seq::<char>::empty());
            },
        }
    }
    if whole.len() == 0 && fraction.len() == 0 {
        return None;
    }
    let (whole_ok, whole_capped) = capped_digits(whole.as_slice());
    if !whole_ok {
        return None;
    }
    let k: usize = if fraction.len() > SCALE_FRACTION_DIGITS { SCALE_FRACTION_DIGITS } else { fraction.len() };
    let (fraction_ok, fraction_value) = leading_digits(fraction.as_slice(), k);
    if !fraction_ok {
        return None;
    }
    let den = power_of_ten(k);
    proof {
        lemma_pow10_bound(k as nat);
        assert(fraction_value < pow10(k as nat)) by {
            lemma_digits_below_pow10(fraction@.take(k as int));
        }
    }
    assert(whole_capped <= 5);
    assert((whole_capped as u128) * (den as u128) <= 5_000_000_000_000_000_000) by (nonlinear_arith)
        requires
            whole_capped <= 5,
            den <= 1_000_000_000_000_000_000,
    ;
    let num: u128 = (whole_capped as u128) * (den as u128) + (fraction_value as u128);
    let d: u128 = den as u128;
    let ghost exact = digits_value(whole@) * pow10(k as nat) + digits_value(fraction@.take(k as int));
    proof {
        if digits_value(whole@) >= 5 {
            assert(exact >= 5 * pow10(k as nat)) by (nonlinear_arith)
                requires
                    exact == digits_value(whole@) * pow10(k as nat) + digits_value(fraction@.take(k as int)),
                    digits_value(whole@) >= 5,
            ;
            assert(num >= 5 * d);
        } else {
            assert(num == exact);
        }
    }
    if num < d || num > 4 * d {
        return None;
    }
    assert(num == exact);
    let dpi = (2 * 96 * num + d) / (2 * d);
    assert(dpi <= 400) by (nonlinear_arith)
        requires
            dpi == (2 * 96 * num + d) / (2 * d),
            num <= 4 * d,
            d >= 1,
    ;
    Some(dpi as u32)
}

proof fn lemma_digits_below_pow10(s: Seq<char>)
    requires
        all_digits(s),
    ensures
        digits_value(s) < pow10(s.len()),
    decreases s.len(),
{
    if s.len() > 0 {
        lemma_digits_below_pow10(s.drop_last());
        assert(is_digit(s.last()));
        let p = pow10(s.drop_last().len());
        assert(digits_value(s.drop_last()) * 10 + 9 < 10 * p) by (nonlinear_arith)
            requires
                digits_value(s.drop_last()) < p,
        ;
    }
}

} // verus!
