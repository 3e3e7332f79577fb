//! Decimal digits of a quotient as a program prints it after holding it in a
//! binary64 float: the quotient is rounded to 53 significant bits (ties to
//! even), and that float is rounded to the decimal places asked for (ties to
//! even).
use crate::text::{round_even, round_even_wide};
use vstd::prelude::*;

verus! {

/// `2^52`, the smallest 53-bit significand.
pub const SIGNIFICAND_LOW: u128 = 0x10_0000_0000_0000;

/// `2^53`, one past the largest 53-bit significand.
pub const SIGNIFICAND_HIGH: u128 = 0x20_0000_0000_0000;

pub open spec fn two_pow(k: nat) -> nat
    decreases k,
{
    if k == 0 {
        1
    } else {
        2 * two_pow((k - 1) as nat)
    }
}

/// `v` is a power of two.
pub open spec fn is_pow2(v: nat) -> bool
    decreases v,
{
    if v <= 1 {
        v == 1
    } else {
        v % 2 == 0 && is_pow2(v / 2)
    }
}

proof fn lemma_two_pow_is_pow2(k: nat)
    ensures
        is_pow2(two_pow(k)),
        two_pow(k) >= 1,
    decreases k,
{
    if k > 0 {
        lemma_two_pow_is_pow2((k - 1) as nat);
        let p = two_pow((k - 1) as nat);
        assert((2 * p) % 2 == 0 && (2 * p) / 2 == p);
    }
}

/// `n / d` rescaled by powers of two until the quotient lies in `[2^52, 2^53)`,
/// with the binary exponent `e` taken out: `n / d == a / b * 2^e`.
pub open spec fn binary_normal(n: nat, d: nat, e: int) -> (nat, nat, int)
    decreases
            (if n > 0 && d > 0 && n < SIGNIFICAND_LOW * d {
                1int
            } else {
                0int
            }),
            (if n > 0 && d > 0 && n < SIGNIFICAND_LOW * d {
                SIGNIFICAND_LOW * d - n
            } else {
                n - SIGNIFICAND_LOW * d
            }),
{
    if n == 0 || d == 0 {
        (n, d, e)
    } else if n < SIGNIFICAND_LOW * d {
        binary_normal(2 * n, d, e - 1)
    } else if n >= SIGNIFICAND_HIGH * d {
        binary_normal(n, 2 * d, e + 1)
    } else {
        (n, d, e)
    }
}

/// The binary64 float nearest to `n / d` (ties to even), as an exact fraction
/// whose denominator is a power of two.
pub open spec fn nearest_f64(n: nat, d: nat) -> (nat, nat) {
    if n == 0 || d == 0 {
        (0, 1)
    } else {
        let (a, b, e) = binary_normal(n, d, 0);
        let m = round_even(a, b);
        if e >= 0 {
            (m * two_pow(e as nat), 1)
        } else {
            (m, two_pow((-e) as nat))
        }
    }
}

/// The float `x` rounded to a multiple of `1 / scale` (ties to even), in
/// units of `1 / scale`: what `{:.N}` prints for `scale == 10^N`.
pub open spec fn decimal_places(x: (nat, nat), scale: nat) -> nat {
    round_even(scale * x.0, x.1)
}

/// `n / d` held as the nearest binary64 float, then rounded to a multiple of
/// `1 / scale` and given in units of `1 / scale`.
pub open spec fn round_f64(n: nat, d: nat, scale: nat) -> nat {
    decimal_places(nearest_f64(n, d), scale)
}

/// A duration of `us` microseconds in seconds as a float: whole seconds
/// plus the float of the nanoseconds over `10^9`.
pub open spec fn secs_f64(us: nat) -> (nat, nat) {
    let fraction = nearest_f64((us % 1_000_000) * 1000, 1_000_000_000);
    nearest_f64((us / 1_000_000) * fraction.1 + fraction.0, fraction.1)
}

/// A duration of `us` microseconds as float seconds times a thousand.
pub open spec fn millis_f64(us: nat) -> (nat, nat) {
    let seconds = secs_f64(us);
    nearest_f64(1000 * seconds.0, seconds.1)
}

/// A count as a binary64 float: exact below `2^53`, the nearest float above.
pub open spec fn count_f64(count: nat) -> nat {
    if count < SIGNIFICAND_HIGH {
        count
    } else {
        nearest_f64(count, 1).0
    }
}

/// `count` as a float divided by the float seconds of `us` microseconds.
/// The seconds are `s.0 / s.1` with `s.1` a power of two, and dividing by
/// them rounds like dividing by `s.0` and then scaling by `s.1`, which
/// binary64 does exactly.
pub open spec fn per_second_f64(count: nat, us: nat) -> (nat, nat) {
    let seconds = secs_f64(us);
    let y = nearest_f64(count_f64(count), seconds.0);
    (y.0 * seconds.1, y.1)
}

proof fn lemma_round_even_halves(a: nat, b: nat)
    requires
        b > 0,
    ensures
        round_even(2 * a, 2 * b) == round_even(a, b),
{
    let q = (a / b) as int;
    let r = (a % b) as int;
    vstd::arithmetic::div_mod::lemma_fundamental_div_mod(a as int, b as int);
    assert(2 * a == q * (2 * b) + 2 * r) by (nonlinear_arith)
        requires
            a == b * q + r,
    ;
    vstd::arithmetic::div_mod::lemma_fundamental_div_mod_converse(2 * a as int, 2 * b as int, q, 2 * r);
}

/// `nearest_f64` on machine integers.
pub fn nearest_f64_wide(n: u128, d: u128) -> (r: (u128, u128))
    requires
        0 < d <= 0x400_0000_0000_0000_0000,
        n < 0x100_0000_0000_0000_0000_0000_0000_0000,
    ensures
        (r.0 as nat, r.1 as nat) == nearest_f64(n as nat, d as nat),
        r.1 >= 1,
        n > 0 ==> r.0 > 0,
        r.1 > 1 ==> SIGNIFICAND_LOW <= r.0 <= SIGNIFICAND_HIGH && r.1 * n < SIGNIFICAND_HIGH * d,
        r.1 == 1 ==> r.0 * d <= 2 * n,
        r.0 * d <= 2 * n * r.1,
        n * r.1 <= 2 * r.0 * d,
        is_pow2(r.1 as nat),
{
    if n == 0 {
        return (0, 1);
    }
    let mut a = n;
    let mut down: u128 = 0;
    let mut down_pow: u128 = 1;
    while a < SIGNIFICAND_LOW * d
        invariant
            0 < d <= 0x400_0000_0000_0000_0000,
            0 < n < 0x100_0000_0000_0000_0000_0000_0000_0000,
            a == n * down_pow,
            down_pow == two_pow(down as nat),
            1 <= down_pow <= a,
            down > 0 ==> a < SIGNIFICAND_HIGH * d,
            down <= down_pow,
            a < 0x100_0000_0000_0000_0000_0000_0000_0000 || a < SIGNIFICAND_HIGH * d,
            binary_normal(a as nat, d as nat, -(down as int)) == binary_normal(n as nat, d as nat, 0),
        decreases SIGNIFICAND_HIGH * d - a,
    {
        assert(n * (2 * down_pow) == 2 * (n * down_pow)) by (nonlinear_arith);
        a = 2 * a;
        down_pow = 2 * down_pow;
        down = down + 1;
        assert(down_pow == two_pow(down as nat));
    }
    let mut b = d;
    let mut up: u128 = 0;
    let mut up_pow: u128 = 1;
    while a >= SIGNIFICAND_HIGH * b
        invariant
            0 < d <= 0x400_0000_0000_0000_0000,
            0 < n < 0x100_0000_0000_0000_0000_0000_0000_0000,
            b == d * up_pow,
            d <= b,
            up_pow == two_pow(up as nat),
            a == n * down_pow,
            down_pow == two_pow(down as nat),
            1 <= up_pow <= b,
            SIGNIFICAND_LOW * b <= a,
            up > 0 ==> down == 0 && a == n,
            down > 0 ==> a < SIGNIFICAND_HIGH * d,
            a < 0x100_0000_0000_0000_0000_0000_0000_0000 || a < SIGNIFICAND_HIGH * d,
            up <= up_pow,
            binary_normal(a as nat, b as nat, up - down) == binary_normal(n as nat, d as nat, 0),
        decreases a - b,
    {
        assert(d * (2 * up_pow) == 2 * (d * up_pow)) by (nonlinear_arith);
        assert(SIGNIFICAND_HIGH * d <= SIGNIFICAND_HIGH * b) by (nonlinear_arith)
            requires
                d <= b,
        ;
        assert(down == 0);
        assert(two_pow(down as nat) == 1);
        assert(down_pow == 1);
        assert(n * down_pow == n) by (nonlinear_arith)
            requires
                down_pow == 1,
        ;
        b = 2 * b;
        up_pow = 2 * up_pow;
        up = up + 1;
        assert(up_pow == two_pow(up as nat));
    }
    assert(binary_normal(a as nat, b as nat, up - down) == (a as nat, b as nat, up - down));
    let m = round_even_wide(a, b);
    assert(SIGNIFICAND_LOW <= a / b < SIGNIFICAND_HIGH) by (nonlinear_arith)
        requires
            SIGNIFICAND_LOW * b <= a < SIGNIFICAND_HIGH * b,
            b > 0,
    ;
    assert(a / b <= m <= a / b + 1);
    if down == 0 {
        assert(two_pow(down as nat) == 1);
        assert(a == n) by (nonlinear_arith)
            requires
                a == n * down_pow,
                down_pow == 1,
        ;
        assert(m * b <= 2 * a) by (nonlinear_arith)
            requires
                m <= a / b + 1,
                b > 0,
                b <= a,
        ;
        assert(m * up_pow * d == m * b) by (nonlinear_arith)
            requires
                b == d * up_pow,
        ;
        assert(m * up_pow <= m * b) by (nonlinear_arith)
            requires
                up_pow <= b,
        ;
        assert(m * up_pow >= m) by (nonlinear_arith)
            requires
                up_pow >= 1,
        ;
        assert(m * up_pow * d <= 2 * n * 1);
        assert(n <= 2 * m * b) by (nonlinear_arith)
            requires
                a / b <= m,
                a / b >= 1,
                b > 0,
                a == n,
        ;
        assert(2 * (m * up_pow) * d == 2 * m * b) by (nonlinear_arith)
            requires
                b == d * up_pow,
        ;
        (m * up_pow, 1)
    } else {
        assert(up == 0);
        assert(two_pow(up as nat) == 1);
        assert(b == d) by (nonlinear_arith)
            requires
                b == d * up_pow,
                up_pow == 1,
        ;
        assert(down_pow > 1) by {
            assert(two_pow(down as nat) == 2 * two_pow((down - 1) as nat));
            lemma_two_pow_is_pow2((down - 1) as nat);
        }
        proof {
            lemma_two_pow_is_pow2(down as nat);
        }
        assert(m * d <= 2 * a) by (nonlinear_arith)
            requires
                m <= a / b + 1,
                a / b >= 1,
                b == d,
                b > 0,
        ;
        assert(2 * n * down_pow == 2 * a) by (nonlinear_arith)
            requires
                a == n * down_pow,
        ;
        assert(n * down_pow <= 2 * m * d) by (nonlinear_arith)
            requires
                a / b <= m,
                a / b >= 1,
                b == d,
                b > 0,
                a == n * down_pow,
        ;
        (m, down_pow)
    }
}

/// `round_f64` on machine integers.
pub fn round_f64_wide(n: u128, d: u128, scale: u128) -> (r: u128)
    requires
        0 < d <= u64::MAX,
        n <= 0x1_0000_0000_0000_0000_0000_0000,
        1 <= scale <= 1000,
    ensures
        r == round_f64(n as nat, d as nat, scale as nat),
{
    let x = nearest_f64_wide(n, d);
    decimal_places_wide(x, d, n, scale)
}

fn decimal_places_wide(x: (u128, u128), d: u128, n: u128, scale: u128) -> (r: u128)
    requires
        x.1 >= 1,
        x.1 > 1 ==> x.0 <= SIGNIFICAND_HIGH,
        x.1 == 1 ==> x.0 * d <= 2 * n,
        0 < d,
        n <= 0x1_0000_0000_0000_0000_0000_0000,
        1 <= scale <= 1000,
    ensures
        r == decimal_places((x.0 as nat, x.1 as nat), scale as nat),
{
    if x.1 == 1 {
        assert(x.0 <= x.0 * d) by (nonlinear_arith)
            requires
                0 < d,
        ;
    }
    assert(scale * x.0 <= 1000 * 0x2_0000_0000_0000_0000_0000_0000) by (nonlinear_arith)
        requires
            1 <= scale <= 1000,
            x.0 <= 0x2_0000_0000_0000_0000_0000_0000,
    ;
    round_even_wide(scale * x.0, x.1)
}

/// `secs_f64` on machine integers.
pub fn secs_f64_wide(us: u64) -> (r: (u128, u128))
    ensures
        (r.0 as nat, r.1 as nat) == secs_f64(us as nat),
        1 <= r.1 <= 0x400_0000_0000_0000_0000,
        r.0 <= 0x80_0000_0000_0000,
        us > 0 ==> r.0 > 0,
        us > 0 ==> r.1 <= 0x40_0000 * r.0,
        is_pow2(r.1 as nat),
{
    let nanos = (us % 1_000_000) as u128 * 1000;
    let f = nearest_f64_wide(nanos, 1_000_000_000);
    if f.1 > 1 {
        assert(nanos >= 1000);
        assert(f.1 * 1000 <= f.1 * nanos) by (nonlinear_arith)
            requires
                nanos >= 1000,
        ;
    } else {
        assert(f.0 <= 2) by (nonlinear_arith)
            requires
                f.0 * 1_000_000_000 <= 2 * nanos,
                nanos < 1_000_000_000,
        ;
    }
    assert(f.1 <= 0x200_0000_0000_0000_0000);
    let secs = (us / 1_000_000) as u128;
    assert(secs * f.1 <= 0x2000_0000_0000 * 0x200_0000_0000_0000_0000) by (nonlinear_arith)
        requires
            secs <= 0x2000_0000_0000,
            f.1 <= 0x200_0000_0000_0000_0000,
    ;
    let n2 = secs * f.1 + f.0;
    let x = nearest_f64_wide(n2, f.1);
    proof {
        if x.1 > 1 {
            if f.1 > 1 {
                assert(x.1 * SIGNIFICAND_LOW <= x.1 * n2) by (nonlinear_arith)
                    requires
                        n2 >= SIGNIFICAND_LOW,
                ;
            } else {
                assert(x.1 <= x.1 * n2) by (nonlinear_arith)
                    requires
                        n2 >= 1,
                ;
            }
        } else {
            assert(x.0 <= 2 * secs + 2 * f.0) by (nonlinear_arith)
                requires
                    x.0 * f.1 <= 2 * n2,
                    n2 == secs * f.1 + f.0,
                    f.1 >= 1,
            ;
        }
        if us > 0 {
            if secs >= 1 {
                assert(f.1 <= n2) by (nonlinear_arith)
                    requires
                        n2 == secs * f.1 + f.0,
                        secs >= 1,
                ;
            } else {
                assert(nanos >= 1000);
                assert(f.1 <= 0x20_0000 * f.0) by (nonlinear_arith)
                    requires
                        nanos * f.1 <= 2 * f.0 * 1_000_000_000,
                        nanos >= 1000,
                ;
            }
            assert(f.1 <= 0x20_0000 * n2);
            assert(x.1 <= 0x40_0000 * x.0) by (nonlinear_arith)
                requires
                    n2 * x.1 <= 2 * x.0 * f.1,
                    f.1 <= 0x20_0000 * n2,
                    n2 > 0,
            ;
        }
    }
    x
}

/// `decimal_places(millis_f64(us), scale)` on machine integers.
pub fn millis_places(us: u64, scale: u128) -> (r: u128)
    requires
        1 <= scale <= 1000,
    ensures
        r == decimal_places(millis_f64(us as nat), scale as nat),
{
    let s = secs_f64_wide(us);
    let x = nearest_f64_wide(1000 * s.0, s.1);
    decimal_places_wide(x, s.1, 1000 * s.0, scale)
}

/// `count_f64` on machine integers.
pub fn count_f64_wide(count: u64) -> (c: u128)
    ensures
        c == count_f64(count as nat),
        c <= 0x2_0000_0000_0000_0000,
{
    if (count as u128) < SIGNIFICAND_HIGH {
        count as u128
    } else {
        let whole = nearest_f64_wide(count as u128, 1);
        assert(whole.1 == 1) by {
            if whole.1 > 1 {
                assert(whole.1 * count >= count) by (nonlinear_arith)
                    requires
                        whole.1 > 1,
                ;
            }
        }
        whole.0
    }
}

/// `decimal_places(per_second_f64(count, us), scale)` on machine integers.
pub fn per_second_places(count: u64, us: u64, scale: u128) -> (r: u128)
    requires
        us > 0,
        1 <= scale <= 1000,
    ensures
        r == decimal_places(per_second_f64(count as nat, us as nat), scale as nat),
{
    let s = secs_f64_wide(us);
    let c = count_f64_wide(count);
    assert(c <= 0x2_0000_0000_0000_0000);
    let y = nearest_f64_wide(c, s.0);
    if y.1 == 1 {
        assert(y.0 <= y.0 * s.0) by (nonlinear_arith)
            requires
                s.0 > 0,
        ;
    }
    assert(y.0 <= 0x4_0000_0000_0000_0000);
    assert(scale * (y.0 * s.1) == scale * y.0 * s.1) by (nonlinear_arith);
    let mut p = s.1;
    let mut q = y.1;
    while p > 1 && q > 1
        invariant
            is_pow2(p as nat),
            is_pow2(q as nat),
            1 <= p <= s.1,
            1 <= q <= y.1,
            p * y.1 == s.1 * q,
            round_even((scale * y.0 * p) as nat, q as nat) == round_even((scale * y.0 * s.1) as nat, y.1 as nat),
            s.1 <= 0x400_0000_0000_0000_0000,
            y.1 >= 1,
        decreases p,
    {
        proof {
            let hp = (p / 2) as nat;
            let hq = (q / 2) as nat;
            assert(p == 2 * hp && q == 2 * hq);
            assert(scale * y.0 * p == 2 * (scale * y.0 * hp)) by (nonlinear_arith)
                requires
                    p == 2 * hp,
            ;
            lemma_round_even_halves((scale * y.0 * hp) as nat, hq);
            assert(hp * y.1 == s.1 * hq) by (nonlinear_arith)
                requires
                    p * y.1 == s.1 * q,
                    p == 2 * hp,
                    q == 2 * hq,
            ;
        }
        p = p / 2;
        q = q / 2;
    }
    if q == 1 {
        assert(round_even((scale * y.0 * p) as nat, 1) == scale * y.0 * p);
        assert(y.0 * p <= 0x80_0000 * c) by (nonlinear_arith)
            requires
                y.0 * s.0 <= 2 * c * y.1,
                s.1 <= 0x40_0000 * s.0,
                p * y.1 == s.1,
                y.1 >= 1,
                s.0 > 0,
        ;
        assert(scale * (y.0 * p) <= 1000 * (0x80_0000 * 0x2_0000_0000_0000_0000)) by (nonlinear_arith)
            requires
                1 <= scale <= 1000,
                y.0 * p <= 0x80_0000 * c,
                c <= 0x2_0000_0000_0000_0000,
        ;
        assert(scale * y.0 * p == scale * (y.0 * p)) by (nonlinear_arith);
        assert(scale * y.0 <= 1000 * 0x4_0000_0000_0000_0000) by (nonlinear_arith)
            requires
                1 <= scale <= 1000,
                y.0 <= 0x4_0000_0000_0000_0000,
        ;
        scale * y.0 * p
    } else {
        assert(p == 1);
        assert(y.1 > 1);
        assert(scale * y.0 * 1 == scale * y.0);
        assert(scale * y.0 <= 1000 * 0x4_0000_0000_0000_0000) by (nonlinear_arith)
            requires
                1 <= scale <= 1000,
                y.0 <= 0x4_0000_0000_0000_0000,
        ;
        round_even_wide(scale * y.0, q)
    }
}

/// `decimal_places(secs_f64(us), scale)` on machine integers.
pub fn secs_places(us: u64, scale: u128) -> (r: u128)
    requires
        1 <= scale <= 1000,
    ensures
        r == decimal_places(secs_f64(us as nat), scale as nat),
{
    let s = secs_f64_wide(us);
    assert(scale * s.0 <= 1000 * 0x80_0000_0000_0000) by (nonlinear_arith)
        requires
            1 <= scale <= 1000,
            s.0 <= 0x80_0000_0000_0000,
    ;
    round_even_wide(scale * s.0, s.1)
}

} // verus!
