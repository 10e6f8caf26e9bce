//! Ratios of counts under IEEE 754 single precision, decided in integers.
//!
//! A count becomes a single-precision number by rounding to 24 significant
//! bits. A quotient rounds to a single-precision number above a threshold
//! exactly when it lies beyond the midpoint between the threshold and the next
//! number up, or on that midpoint where rounding to even goes up.
use vstd::prelude::*;

verus! {

/// The spacing of the single-precision numbers around the count `n`.
pub open spec fn single_unit(n: nat) -> nat
    decreases n,
{
    if n < 0x100_0000 {
        1
    } else {
        2 * single_unit(n / 2)
    }
}

/// `n` rounded to a multiple of `unit`, ties to the even multiple.
pub open spec fn round_half_even(n: nat, unit: nat) -> nat {
    let q = n / unit;
    let r = n % unit;
    if 2 * r > unit || (2 * r == unit && q % 2 == 1) {
        (q + 1) * unit
    } else {
        q * unit
    }
}

/// The count `n` as a single-precision number.
pub open spec fn to_single(n: nat) -> nat {
    round_half_even(n, single_unit(n))
}

/// Whether `a / b`, rounded to single precision, exceeds the single-precision
/// number `m * 2^e`.
pub open spec fn quotient_exceeds(a: nat, b: nat, m: nat, e: int) -> bool {
    let (left, right) = if e >= 0 {
        (2 * a, (2 * m + 1) * b * vstd::arithmetic::power2::pow2(e as nat))
    } else {
        (2 * a * vstd::arithmetic::power2::pow2((-e) as nat), (2 * m + 1) * b)
    };
    left > right || (left == right && m % 2 == 1)
}

/// Whether `a / b`, in single precision, exceeds the number whose bit pattern is
/// `bits`.
pub open spec fn ratio_exceeds(a: nat, b: nat, bits: u32) -> bool {
    let negative = bits >= 0x8000_0000;
    let exponent = (bits / 0x80_0000) % 256;
    let fraction = bits % 0x80_0000;
    if b == 0 {
        // A positive count over nothing is infinite, nothing over nothing is a NaN.
        a > 0 && (exponent != 255 || (negative && fraction == 0))
    } else if exponent == 255 {
        // Only negative infinity is below a count; a NaN compares with nothing.
        negative && fraction == 0
    } else if negative && (exponent > 0 || fraction > 0) {
        // The negative numbers are below all quotients; negative zero is zero.
        true
    } else if exponent == 0 {
        quotient_exceeds(to_single(a), to_single(b), fraction as nat, -149)
    } else {
        quotient_exceeds(
            to_single(a),
            to_single(b),
            (fraction + 0x80_0000) as nat,
            exponent - 150,
        )
    }
}

/// Rounding to single precision moves a count by at most its half.
proof fn round_bounds(n: nat, unit: nat)
    requires
        unit >= 1,
        unit == 1 || 0x80_0000 * unit <= n,
    ensures
        n <= 2 * round_half_even(n, unit),
        round_half_even(n, unit) <= 2 * n,
{
    let q = n / unit;
    let r = n % unit;
    vstd::arithmetic::div_mod::lemma_fundamental_div_mod(n as int, unit as int);
    assert(q * unit == unit * q) by (nonlinear_arith);
    assert((q + 1) * unit == q * unit + unit) by (nonlinear_arith);
    assert(r < unit);
    if unit == 1 {
        assert(r == 0);
    }
}

/// The count `n` as a single-precision number.
fn single_of(n: u64) -> (r: u128)
    ensures
        r == to_single(n as nat),
        n <= 2 * r,
        r <= 2 * n,
{
    let mut m: u64 = n;
    let mut unit: u128 = 1;
    while m >= 0x100_0000
        invariant
            single_unit(n as nat) == unit * single_unit(m as nat),
            unit >= 1,
            unit * m <= n,
            unit == 1 || m >= 0x80_0000,
        decreases m,
    {
        assert(unit * 0x100_0000 <= n) by (nonlinear_arith)
            requires
                unit * m <= n,
                m >= 0x100_0000,
        ;
        assert(unit * (2 * single_unit((m / 2) as nat)) == (2 * unit) * single_unit(
            (m / 2) as nat,
        )) by (nonlinear_arith);
        assert((2 * unit) * (m / 2) <= n) by (nonlinear_arith)
            requires
                unit * m <= n,
                2 * (m / 2) <= m,
                unit >= 1,
        ;
        m = m / 2;
        unit = unit * 2;
    }
    assert(single_unit(m as nat) == 1);
    assert(unit == single_unit(n as nat));
    assert(unit == 1 || 0x80_0000 * unit <= n) by (nonlinear_arith)
        requires
            unit * m <= n,
            unit == 1 || m >= 0x80_0000,
            unit >= 1,
    ;
    proof {
        round_bounds(n as nat, unit as nat);
        vstd::arithmetic::div_mod::lemma_fundamental_div_mod(n as int, unit as int);
        assert(n as int / unit as int * unit == unit * (n as int / unit as int))
            by (nonlinear_arith);
        assert((n as int / unit as int + 1) * unit == n as int / unit as int * unit + unit)
            by (nonlinear_arith);
    }
    let wide = n as u128;
    let q: u128 = wide / unit;
    let rest: u128 = wide % unit;
    if 2 * rest > unit || (2 * rest == unit && q % 2 == 1) {
        (q + 1) * unit
    } else {
        q * unit
    }
}

/// `2^k`.
fn power_of_two(k: u32) -> (r: u128)
    requires
        k < 128,
    ensures
        r == vstd::arithmetic::power2::pow2(k as nat),
{
    proof {
        vstd::arithmetic::power2::lemma2_to64();
        vstd::arithmetic::power2::lemma2_to64_rest();
        vstd::arithmetic::power2::lemma_pow2_adds(63, 64);
    }
    let mut i: u32 = 0;
    let mut p: u128 = 1;
    while i < k
        invariant
            i <= k < 128,
            p == vstd::arithmetic::power2::pow2(i as nat),
            vstd::arithmetic::power2::pow2(127) == 0x8000_0000_0000_0000_0000_0000_0000_0000,
        decreases k - i,
    {
        proof {
            vstd::arithmetic::power2::lemma_pow2_unfold((i + 1) as nat);
            if i + 1 < 127 {
                vstd::arithmetic::power2::lemma_pow2_strictly_increases((i + 1) as nat, 127);
            }
        }
        p = 2 * p;
        i += 1;
    }
    p
}

/// Decides `quotient_exceeds` for the exponent `-k`.
fn exceeds_fraction(a: u128, b: u128, m: u128, k: u32) -> (r: bool)
    requires
        a <= 2 * u64::MAX,
        1 <= b <= 2 * u64::MAX,
        m < 0x100_0000,
        1 <= k < 150,
    ensures
        r == quotient_exceeds(a as nat, b as nat, m as nat, -(k as int)),
{
    proof {
        vstd::arithmetic::power2::lemma2_to64();
        vstd::arithmetic::power2::lemma2_to64_rest();
        vstd::arithmetic::power2::lemma_pow2_adds(26, 64);
        vstd::arithmetic::power2::lemma_pow2_adds(25, 64);
    }
    assert((2 * m + 1) * b <= 0x1ff_ffff * (2 * u64::MAX)) by (nonlinear_arith)
        requires
            b <= 2 * u64::MAX,
            m < 0x100_0000,
    ;
    assert((2 * m + 1) * b >= 1) by (nonlinear_arith)
        requires
            b >= 1,
            m >= 0,
    ;
    let right: u128 = (2 * m + 1) * b;
    let ghost power = vstd::arithmetic::power2::pow2(k as nat);
    if a == 0 {
        assert(2 * a * power == 0) by (nonlinear_arith)
            requires
                a == 0,
        ;
        return false;
    }
    if k >= 90 {
        proof {
            if k > 90 {
                vstd::arithmetic::power2::lemma_pow2_strictly_increases(90, k as nat);
            }
            assert(2 * a * power >= 2 * power) by (nonlinear_arith)
                requires
                    a >= 1,
                    power >= 0,
            ;
        }
        return true;
    }
    if k >= 62 && a >= 0x20_0000_0000 {
        proof {
            if k > 62 {
                vstd::arithmetic::power2::lemma_pow2_strictly_increases(62, k as nat);
            }
            assert(2 * a * power >= 2 * 0x20_0000_0000 * 0x4000_0000_0000_0000)
                by (nonlinear_arith)
                requires
                    a >= 0x20_0000_0000,
                    power >= 0x4000_0000_0000_0000,
            ;
        }
        return true;
    }
    proof {
        if k >= 62 {
            if k < 89 {
                vstd::arithmetic::power2::lemma_pow2_strictly_increases(k as nat, 89);
            }
            assert(2 * a * power <= 2 * 0x20_0000_0000 * vstd::arithmetic::power2::pow2(89)) by (nonlinear_arith)
                requires
                    a <= 0x20_0000_0000,
                    power <= vstd::arithmetic::power2::pow2(89),
            ;
        } else {
            if k < 61 {
                vstd::arithmetic::power2::lemma_pow2_strictly_increases(k as nat, 61);
            }
            assert(2 * a * power <= 2 * (2 * u64::MAX) * vstd::arithmetic::power2::pow2(61)) by (nonlinear_arith)
                requires
                    a <= 2 * u64::MAX,
                    power <= vstd::arithmetic::power2::pow2(61),
            ;
        }
    }
    let left: u128 = 2 * a * power_of_two(k);
    left > right || (left == right && m % 2 == 1)
}

/// Decides whether `a / b`, in single precision, exceeds the number whose bit
/// pattern is `bits`.
pub fn exceeds(a: u64, b: u64, bits: u32) -> (r: bool)
    ensures
        r == ratio_exceeds(a as nat, b as nat, bits),
{
    let negative = bits >= 0x8000_0000;
    let exponent: u32 = (bits / 0x80_0000) % 256;
    let fraction: u32 = bits % 0x80_0000;
    if b == 0 {
        return a > 0 && (exponent != 255 || (negative && fraction == 0));
    }
    if exponent == 255 {
        return negative && fraction == 0;
    }
    if negative && (exponent > 0 || fraction > 0) {
        return true;
    }
    let x = single_of(a);
    let y = single_of(b);
    if exponent == 0 {
        exceeds_fraction(x, y, fraction as u128, 149)
    } else if exponent < 150 {
        exceeds_fraction(x, y, (fraction + 0x80_0000) as u128, 150 - exponent)
    } else {
        exceeds_integer(x, y, (fraction + 0x80_0000) as u128, exponent - 150)
    }
}

/// Decides `quotient_exceeds` for the exponent `k`.
fn exceeds_integer(a: u128, b: u128, m: u128, k: u32) -> (r: bool)
    requires
        a <= 2 * u64::MAX,
        1 <= b <= 2 * u64::MAX,
        0x80_0000 <= m < 0x100_0000,
        k < 105,
    ensures
        r == quotient_exceeds(a as nat, b as nat, m as nat, k as int),
{
    let ghost power = vstd::arithmetic::power2::pow2(k as nat);
    proof {
        vstd::arithmetic::power2::lemma2_to64();
        vstd::arithmetic::power2::lemma2_to64_rest();
        vstd::arithmetic::power2::lemma_pow2_pos(k as nat);
    }
    assert(0x100_0001 <= (2 * m + 1) * b <= 0x1ff_ffff * (2 * u64::MAX)) by (nonlinear_arith)
        requires
            1 <= b <= 2 * u64::MAX,
            0x80_0000 <= m < 0x100_0000,
    ;
    let left: u128 = 2 * a;
    let base: u128 = (2 * m + 1) * b;
    if k >= 43 {
        proof {
            if k > 43 {
                vstd::arithmetic::power2::lemma_pow2_strictly_increases(43, k as nat);
            }
            assert(base * power >= 0x100_0001 * 0x800_0000_0000) by (nonlinear_arith)
                requires
                    base >= 0x100_0001,
                    power >= 0x800_0000_0000,
            ;
        }
        return false;
    }
    if base > left {
        assert(base * power >= base) by (nonlinear_arith)
            requires
                power >= 1,
                base >= 0,
        ;
        return false;
    }
    proof {
        if k < 42 {
            vstd::arithmetic::power2::lemma_pow2_strictly_increases(k as nat, 42);
        }
        assert(base * power <= (4 * u64::MAX) * 0x400_0000_0000) by (nonlinear_arith)
            requires
                base <= 4 * u64::MAX,
                power <= 0x400_0000_0000,
                base >= 0,
        ;
    }
    let right: u128 = base * power_of_two(k);
    left > right || (left == right && m % 2 == 1)
}

/// The place of a single-precision number among all, by its bit pattern: the
/// negative ones count down from zero. A NaN has none.
pub open spec fn rank(bits: u32) -> int {
    if bits >= 0x8000_0000 {
        0x8000_0000 - bits
    } else {
        bits as int
    }
}

/// Whether a bit pattern is that of a number or an infinity.
pub open spec fn is_number(bits: u32) -> bool {
    (bits / 0x80_0000) % 256 != 255 || bits % 0x80_0000 == 0
}

/// Whether two bit patterns are those of numbers, the first not above the second.
pub open spec fn at_most(low: u32, high: u32) -> bool {
    is_number(low) && is_number(high) && rank(low) <= rank(high)
}

/// `quotient_exceeds` with both sides brought to the finest spacing.
proof fn quotient_exceeds_scaled(a: nat, b: nat, m: nat, e: int)
    requires
        -149 <= e,
    ensures
        ({
            let left = 2 * a * vstd::arithmetic::power2::pow2(149);
            let right = (2 * m + 1) * b * vstd::arithmetic::power2::pow2((e + 149) as nat);
            quotient_exceeds(a, b, m, e) == (left > right || (left == right && m % 2 == 1))
        }),
{
    let full = vstd::arithmetic::power2::pow2(149);
    let rest = vstd::arithmetic::power2::pow2((e + 149) as nat);
    if e >= 0 {
        let power = vstd::arithmetic::power2::pow2(e as nat);
        vstd::arithmetic::power2::lemma_pow2_adds(e as nat, 149);
        vstd::arithmetic::power2::lemma_pow2_pos(149);
        scaling_keeps_order((2 * a) as int, ((2 * m + 1) * b * power) as int, full as int);
        assert((2 * m + 1) * b * rest == (2 * m + 1) * b * power * full) by (nonlinear_arith)
            requires
                rest == power * full,
        ;
    } else {
        let power = vstd::arithmetic::power2::pow2((-e) as nat);
        vstd::arithmetic::power2::lemma_pow2_adds((-e) as nat, (e + 149) as nat);
        vstd::arithmetic::power2::lemma_pow2_pos((e + 149) as nat);
        scaling_keeps_order((2 * a * power) as int, ((2 * m + 1) * b) as int, rest as int);
        assert(2 * a * full == 2 * a * power * rest) by (nonlinear_arith)
            requires
                full == power * rest,
        ;
    }
}

proof fn scaling_keeps_order(x: int, y: int, k: int)
    by (nonlinear_arith)
    requires
        k > 0,
    ensures
        (x > y) == (x * k > y * k),
        (x == y) == (x * k == y * k),
{
}

/// What exceeds the next number up exceeds a number that is not negative.
proof fn next_up(a: nat, b: nat, bits: u32)
    requires
        b > 0,
        bits + 1 < 0x7f80_0000,
        ratio_exceeds(a, b, (bits + 1) as u32),
    ensures
        ratio_exceeds(a, b, bits),
{
    let next = (bits + 1) as u32;
    let x = to_single(a);
    let y = to_single(b);
    single_of_positive(b);
    let e = ((bits / 0x80_0000) % 256) as int;
    let f = (bits % 0x80_0000) as int;
    let ne = ((next / 0x80_0000) % 256) as int;
    let nf = (next % 0x80_0000) as int;
    assert((nf == f + 1 && ne == e) || (f == 0x7f_ffff && nf == 0 && ne == e + 1));
    let m = if e == 0 {
        f
    } else {
        f + 0x80_0000
    };
    let nm = if ne == 0 {
        nf
    } else {
        nf + 0x80_0000
    };
    let s = if e == 0 {
        0
    } else {
        e - 1
    };
    let ns = if ne == 0 {
        0
    } else {
        ne - 1
    };
    quotient_exceeds_scaled(x, y, m as nat, s - 149);
    quotient_exceeds_scaled(x, y, nm as nat, ns - 149);
    let p = vstd::arithmetic::power2::pow2(s as nat);
    let np = vstd::arithmetic::power2::pow2(ns as nat);
    vstd::arithmetic::power2::lemma_pow2_pos(s as nat);
    if ns == s {
        assert(nm == m + 1);
        assert((2 * nm + 1) * y * np > (2 * m + 1) * y * p) by (nonlinear_arith)
            requires
                nm == m + 1,
                np == p,
                p > 0,
                y > 0,
                m >= 0,
        ;
    } else {
        assert(ns == s + 1 && nm == 0x80_0000 && m == 0xff_ffff);
        vstd::arithmetic::power2::lemma_pow2_unfold(ns as nat);
        assert((2 * nm + 1) * y * np > (2 * m + 1) * y * p) by (nonlinear_arith)
            requires
                nm == 0x80_0000,
                m == 0xff_ffff,
                np == 2 * p,
                p > 0,
                y > 0,
        ;
    }
}

/// A positive count is a positive single-precision number.
proof fn single_of_positive(n: nat)
    requires
        n > 0,
    ensures
        to_single(n) > 0,
{
    unit_bounds(n);
    round_bounds(n, single_unit(n));
}

/// The spacing around a count is at most its part of 24 bits.
proof fn unit_bounds(n: nat)
    ensures
        single_unit(n) >= 1,
        single_unit(n) == 1 || 0x80_0000 * single_unit(n) <= n,
    decreases n,
{
    if n >= 0x100_0000 {
        unit_bounds(n / 2);
    }
}

/// What exceeds a number that is not negative exceeds every smaller one of these.
proof fn lower_down(a: nat, b: nat, low: u32, high: u32)
    requires
        b > 0,
        low <= high < 0x7f80_0000,
        ratio_exceeds(a, b, high),
    ensures
        ratio_exceeds(a, b, low),
    decreases high - low,
{
    if low < high {
        next_up(a, b, (high - 1) as u32);
        lower_down(a, b, low, (high - 1) as u32);
    }
}

/// Nothing exceeds a threshold that is not negative by being zero.
pub proof fn zero_exceeds_nothing(b: nat, bits: u32)
    requires
        bits < 0x8000_0000,
    ensures
        !ratio_exceeds(0, b, bits),
{
    if b > 0 {
        single_of_positive(b);
        assert(single_unit(0) == 1);
        assert(round_half_even(0, 1) == 0);
        let y = to_single(b);
        let exponent = ((bits / 0x80_0000) % 256) as int;
        let m = if exponent == 0 {
            (bits % 0x80_0000) as int
        } else {
            (bits % 0x80_0000) as int + 0x80_0000
        };
        let e = if exponent == 0 {
            -149
        } else {
            exponent - 150
        };
        quotient_exceeds_scaled(0, y, m as nat, e);
        let rest = vstd::arithmetic::power2::pow2((e + 149) as nat);
        vstd::arithmetic::power2::lemma_pow2_pos((e + 149) as nat);
        assert((2 * m + 1) * y * rest > 0) by (nonlinear_arith)
            requires
                m >= 0,
                y > 0,
                rest > 0,
        ;
        assert(2 * 0nat * vstd::arithmetic::power2::pow2(149) == 0) by (nonlinear_arith);
    }
}

/// A ratio that exceeds a threshold exceeds every smaller one.
pub proof fn smaller_thresholds_are_exceeded(a: nat, b: nat, low: u32, high: u32)
    requires
        at_most(low, high),
        ratio_exceeds(a, b, high),
    ensures
        ratio_exceeds(a, b, low),
{
    if rank(high) < 0 {
        assert(low >= 0x8000_0000);
        assert((low / 0x80_0000) % 256 > 0 || low % 0x80_0000 > 0);
    } else if rank(high) > 0x7f80_0000 {
        assert((high / 0x80_0000) % 256 == 255 && high % 0x80_0000 != 0);
    } else if rank(high) == 0x7f80_0000 {
        assert((high / 0x80_0000) % 256 == 255 && high < 0x8000_0000);
    } else if low >= 0x8000_0000 && low != 0x8000_0000 {
        assert((low / 0x80_0000) % 256 > 0 || low % 0x80_0000 > 0);
    } else if b > 0 {
        let top = rank(high) as u32;
        let bottom = rank(low) as u32;
        assert(0x8000_0000u32 / 0x80_0000 == 256);
        assert(ratio_exceeds(a, b, top));
        lower_down(a, b, bottom, top);
    }
}

/// Counts below two to the power of 24 are single-precision numbers themselves.
pub proof fn small_counts_are_exact(n: nat)
    requires
        n < 0x100_0000,
    ensures
        to_single(n) == n,
{
    assert(single_unit(n) == 1);
    assert(n / 1 == n && n % 1 == 0) by (nonlinear_arith);
}

/// A ratio exceeds the single-precision number next to two fifths if and only if five
/// times the first count is more than twice the second, where that is so small that
/// rounding does not matter. Where it is zero, any positive count exceeds it.
pub proof fn two_fifths(a: nat, b: nat)
    requires
        b <= 9_000_000,
    ensures
        ratio_exceeds(a, b, 0x3ECC_CCCD) <==> 5 * a > 2 * b,
{
    assert(0x3ECC_CCCDu32 / 0x80_0000 == 125);
    assert(0x3ECC_CCCDu32 % 0x80_0000 == 0x4C_CCCD);
    if b > 0 {
        small_counts_are_exact(b);
        vstd::arithmetic::power2::lemma2_to64();
        let x = to_single(a);
        if a < 0x100_0000 {
            small_counts_are_exact(a);
        } else {
            unit_bounds(a);
            round_bounds(a, single_unit(a));
        }
        assert(2 * x * 0x200_0000 == 0x400_0000 * x) by (nonlinear_arith);
        assert((2 * 0xCC_CCCDnat + 1) * b == 26_843_547 * b) by (nonlinear_arith);
    }
}

/// A larger count exceeds what a smaller one does, and over fewer others too, where
/// the counts are single-precision numbers themselves.
pub proof fn larger_ratios_exceed_more(a: nat, b: nat, more: nat, fewer: nat, bits: u32)
    requires
        a <= more < 0x100_0000,
        0 < fewer <= b < 0x100_0000,
        ratio_exceeds(a, b, bits),
    ensures
        ratio_exceeds(more, fewer, bits),
{
    small_counts_are_exact(a);
    small_counts_are_exact(b);
    small_counts_are_exact(more);
    small_counts_are_exact(fewer);
    let exponent = ((bits / 0x80_0000) % 256) as int;
    let m = if exponent == 0 {
        (bits % 0x80_0000) as int
    } else {
        (bits % 0x80_0000) as int + 0x80_0000
    };
    let e = if exponent == 0 {
        -149
    } else {
        exponent - 150
    };
    quotient_exceeds_scaled(a, b, m as nat, e);
    quotient_exceeds_scaled(more, fewer, m as nat, e);
    let full = vstd::arithmetic::power2::pow2(149);
    let rest = vstd::arithmetic::power2::pow2((e + 149) as nat);
    assert(2 * a * full <= 2 * more * full) by (nonlinear_arith)
        requires
            a <= more,
            full >= 0,
    ;
    assert((2 * m + 1) * fewer * rest <= (2 * m + 1) * b * rest) by (nonlinear_arith)
        requires
            fewer <= b,
            m >= 0,
            rest >= 0,
    ;
}

/// Rounding goes to the nearest multiple, by at most half a unit, and from the middle to
/// the even one.
pub proof fn rounding_is_to_the_nearest(n: nat, unit: nat)
    requires
        unit > 0,
    ensures
        ({
            let r = round_half_even(n, unit);
            &&& r == (n / unit) * unit || r == (n / unit + 1) * unit
            &&& 2 * (r - n) <= unit && 2 * (n - r) <= unit
            &&& 2 * (r - n) == unit || 2 * (n - r) == unit ==> exists|k: nat|
                r == #[trigger] (2 * k * unit)
        }),
{
    let q = n / unit;
    let rest = n % unit;
    let r = round_half_even(n, unit);
    vstd::arithmetic::div_mod::lemma_fundamental_div_mod(n as int, unit as int);
    assert(q * unit == unit * q) by (nonlinear_arith);
    assert((q + 1) * unit == q * unit + unit) by (nonlinear_arith);
    if 2 * rest == unit {
        if q % 2 == 1 {
            assert(q + 1 == 2 * ((q + 1) / 2));
            assert(r == 2 * ((q + 1) / 2) * unit);
        } else {
            assert(q == 2 * (q / 2));
            assert(r == 2 * (q / 2) * unit);
        }
    }
}

/// The quotient of two counts, rounded, exceeds a number if it lies beyond the middle
/// between that number and the next one up, or in the middle where rounding to even goes
/// up, and not if it lies before the middle; a quotient that is at most the number never does, and one that
/// is at least the next number always does.
pub proof fn quotients_are_rounded(a: nat, b: nat, m: nat, k: nat)
    requires
        k > 0,
        b > 0,
    ensures
        ({
            let scaled = a * vstd::arithmetic::power2::pow2(k);
            &&& scaled <= m * b ==> !quotient_exceeds(a, b, m, -(k as int))
            &&& scaled >= (m + 1) * b ==> quotient_exceeds(a, b, m, -(k as int))
            &&& 2 * scaled > (2 * m + 1) * b ==> quotient_exceeds(a, b, m, -(k as int))
            &&& 2 * scaled < (2 * m + 1) * b ==> !quotient_exceeds(a, b, m, -(k as int))
            &&& 2 * scaled == (2 * m + 1) * b ==> quotient_exceeds(a, b, m, -(k as int)) == (m % 2
                == 1)
        }),
{
    let power = vstd::arithmetic::power2::pow2(k);
    let scaled = a * power;
    assert(2 * a * power == 2 * scaled) by (nonlinear_arith)
        requires
            scaled == a * power,
    ;
    assert((2 * m + 1) * b == 2 * (m * b) + b) by (nonlinear_arith);
    assert((m + 1) * b == m * b + b) by (nonlinear_arith);
}

/// The same for the numbers whose spacing is at least one.
pub proof fn large_quotients_are_rounded(a: nat, b: nat, m: nat, k: nat)
    requires
        b > 0,
    ensures
        ({
            let scaled = b * vstd::arithmetic::power2::pow2(k);
            &&& 2 * a > (2 * m + 1) * scaled ==> quotient_exceeds(a, b, m, k as int)
            &&& 2 * a < (2 * m + 1) * scaled ==> !quotient_exceeds(a, b, m, k as int)
            &&& 2 * a == (2 * m + 1) * scaled ==> quotient_exceeds(a, b, m, k as int) == (m % 2
                == 1)
        }),
{
    let power = vstd::arithmetic::power2::pow2(k);
    assert((2 * m + 1) * b * power == (2 * m + 1) * (b * power)) by (nonlinear_arith);
}

/// A ratio is held against the number that a bit pattern stands for: infinities and what is
/// no number as they compare, negative numbers below every count, and all others by their
/// digits and exponent.
pub proof fn thresholds_are_numbers(a: nat, b: nat, bits: u32)
    requires
        b > 0,
    ensures
        bits == 0x7F80_0000 ==> !ratio_exceeds(a, b, bits),
        bits == 0xFF80_0000 ==> ratio_exceeds(a, b, bits),
        0x7F80_0000 < bits < 0x8000_0000 || 0xFF80_0000 < bits ==> !ratio_exceeds(a, b, bits),
        0x8000_0000 < bits <= 0xFF80_0000 ==> ratio_exceeds(a, b, bits),
        0x80_0000 <= bits < 0x7F80_0000 ==> ratio_exceeds(a, b, bits) == quotient_exceeds(
            to_single(a),
            to_single(b),
            (bits % 0x80_0000 + 0x80_0000) as nat,
            bits / 0x80_0000 - 150,
        ),
        bits < 0x80_0000 ==> ratio_exceeds(a, b, bits) == quotient_exceeds(
            to_single(a),
            to_single(b),
            bits as nat,
            -149,
        ),
{
}

/// A decision is about the ratio of the two counts that it is given.
pub proof fn ratios_are_decided(a: u64, b: u64, bits: u32, r: bool)
    requires
        call_ensures(exceeds, (a, b, bits), r),
    ensures
        r == ratio_exceeds(a as nat, b as nat, bits),
        b == 0 && bits < 0x7F80_0000 ==> r == (a > 0),
        b <= 9_000_000 && bits == 0x3ECC_CCCD ==> r == (5 * a > 2 * b),
{
    if b <= 9_000_000 {
        two_fifths(a as nat, b as nat);
    }
}

} // verus!
