//! Rounding of rationals the way binary64 arithmetic rounds them.
//!
//! The scale of an output is a binary64 number, and pixel sizes are the
//! products and quotients of that number with integers, rounded first to the
//! nearest binary64 number (ties to even) and then to the nearest integer
//! (ties away from zero). Every operand here is a positive rational, so the
//! whole computation is carried out on integers.

use vstd::prelude::*;
use vstd::arithmetic::power2::*;
use vstd::arithmetic::div_mod::*;

verus! {

/// The smallest significand of a normal binary64 number: two to the 52nd power.
pub const MIN_SIGNIFICAND: u64 = 0x10_0000_0000_0000;

/// One past the largest significand of a binary64 number: two to the 53rd power.
pub const END_SIGNIFICAND: u64 = 0x20_0000_0000_0000;

/// `n / d` rounded to the nearest integer, ties to the even one.
pub open spec fn round_half_even(n: nat, d: nat) -> nat {
    let q = n / d;
    let r = n % d;
    if 2 * r < d || (2 * r == d && q % 2 == 0) {
        q
    } else {
        q + 1
    }
}

/// The numerator of `num / den` times two to the power `e`.
pub open spec fn shifted_num(num: nat, e: int) -> nat {
    if e >= 0 {
        num * pow2(e as nat)
    } else {
        num
    }
}

/// The denominator of `num / den` times two to the power `e`.
pub open spec fn shifted_den(den: nat, e: int) -> nat {
    if e >= 0 {
        den
    } else {
        den * pow2((-e) as nat)
    }
}

/// Whether `num / den` times two to the power `e` has the size of a
/// significand.
pub open spec fn in_binade(num: nat, den: nat, e: int) -> bool {
    MIN_SIGNIFICAND * shifted_den(den, e) <= shifted_num(num, e) < END_SIGNIFICAND * shifted_den(
        den,
        e,
    )
}

/// The power of two that brings `num / den` to the size of a significand.
pub open spec fn binade(num: nat, den: nat) -> int {
    choose|e: int| in_binade(num, den, e)
}

/// The significand of the binary64 number nearest to `num / den`: that number
/// is `significand(num, den)` over two to the power `binade(num, den)`.
pub open spec fn significand(num: nat, den: nat) -> nat {
    let e = binade(num, den);
    round_half_even(shifted_num(num, e), shifted_den(den, e))
}

/// The integer nearest to `m` over two to the power `e`, ties away from zero.
pub open spec fn round_half_up(m: nat, e: int) -> nat {
    if e <= 0 {
        m * pow2((-e) as nat)
    } else {
        (m + pow2((e - 1) as nat)) / pow2(e as nat)
    }
}

/// The integer nearest to the binary64 number nearest to `num / den`.
pub open spec fn round_quotient(num: nat, den: nat) -> nat {
    if num == 0 {
        0
    } else {
        round_half_up(significand(num, den), binade(num, den))
    }
}

/// The quotients that occur as sizes: from two to the power -40 up to two to
/// the power 64, over a denominator of at most two to the power 60.
pub open spec fn is_size_quotient(num: nat, den: nat) -> bool {
    &&& 0 < den <= 0x1000_0000_0000_0000
    &&& den <= num * 0x100_0000_0000
    &&& num < den * 0x1_0000_0000_0000_0000
}

/// The values of the powers of two that the bounds in this module name.
pub proof fn lemma_pow2_values()
    ensures
        pow2(0) == 1,
        pow2(1) == 2,
        pow2(11) == 0x800,
        pow2(32) == 0x1_0000_0000,
        pow2(40) == 0x100_0000_0000,
        pow2(52) == MIN_SIGNIFICAND,
        pow2(53) == END_SIGNIFICAND,
        pow2(60) == 0x1000_0000_0000_0000,
        pow2(64) == 0x1_0000_0000_0000_0000,
{
    lemma2_to64();
    lemma2_to64_rest();
}

/// Moving from one power of two to a larger one multiplies the quotient.
proof fn lemma_shift_ratio(num: nat, den: nat, e1: int, e2: int)
    requires
        e1 <= e2,
    ensures
        shifted_num(num, e2) * shifted_den(den, e1) == shifted_num(num, e1) * shifted_den(den, e2)
            * pow2((e2 - e1) as nat),
{
    let k = pow2((e2 - e1) as nat);
    if e1 >= 0 {
        let p = pow2(e1 as nat);
        lemma_pow2_adds(e1 as nat, (e2 - e1) as nat);
        assert((num * (p * k)) * den == (num * p) * den * k) by (nonlinear_arith);
    } else if e2 >= 0 {
        let p = pow2((-e1) as nat);
        let q = pow2(e2 as nat);
        lemma_pow2_adds((-e1) as nat, e2 as nat);
        assert((num * q) * (den * p) == num * den * (p * q)) by (nonlinear_arith);
    } else {
        let q = pow2((-e2) as nat);
        lemma_pow2_adds((-e2) as nat, (e2 - e1) as nat);
        assert(num * (den * (q * k)) == num * (den * q) * k) by (nonlinear_arith);
    }
}

/// No quotient has the size of a significand under two powers of two.
proof fn lemma_binade_unique(num: nat, den: nat, e1: int, e2: int)
    requires
        den > 0,
        in_binade(num, den, e1),
        in_binade(num, den, e2),
    ensures
        e1 == e2,
{
    if e1 < e2 {
        lemma_binade_not_later(num, den, e1, e2);
    } else if e2 < e1 {
        lemma_binade_not_later(num, den, e2, e1);
    }
}

proof fn lemma_binade_not_later(num: nat, den: nat, e1: int, e2: int)
    requires
        den > 0,
        in_binade(num, den, e1),
        e1 < e2,
    ensures
        !in_binade(num, den, e2),
{
    lemma_shift_ratio(num, den, e1, e2);
    let k = pow2((e2 - e1) as nat);
    lemma_pow2_values();
    if e2 - e1 > 1 {
        lemma_pow2_strictly_increases(1, (e2 - e1) as nat);
    }
    assert(k >= 2);
    lemma_shifted_den_positive(den, e1);
    lemma_shifted_den_positive(den, e2);
    let n1 = shifted_num(num, e1);
    let n2 = shifted_num(num, e2);
    let d1 = shifted_den(den, e1);
    let d2 = shifted_den(den, e2);
    let lo = MIN_SIGNIFICAND as int;
    if in_binade(num, den, e2) {
        assert(n2 * d1 < 2 * lo * d2 * d1) by (nonlinear_arith)
            requires
                n2 < 2 * lo * d2,
                d1 > 0,
        ;
    }
    assert(n1 * d2 * k >= (lo * d1) * d2 * 2) by (nonlinear_arith)
        requires
            n1 >= lo * d1,
            k >= 2,
            d2 > 0,
            d1 > 0,
            lo > 0,
    ;
    assert((lo * d1) * d2 * 2 == 2 * lo * d2 * d1) by (nonlinear_arith);
}

proof fn lemma_shifted_den_positive(den: nat, e: int)
    requires
        den > 0,
    ensures
        shifted_den(den, e) > 0,
{
    if e < 0 {
        lemma_pow2_pos((-e) as nat);
        assert(den * pow2((-e) as nat) > 0) by (nonlinear_arith)
            requires
                den > 0,
                pow2((-e) as nat) > 0,
        ;
    }
}

/// A power of two under which the quotient has the size of a significand is
/// the quotient's binade.
pub proof fn lemma_is_binade(num: nat, den: nat, e: int)
    requires
        den > 0,
        in_binade(num, den, e),
    ensures
        binade(num, den) == e,
{
    lemma_binade_unique(num, den, e, binade(num, den));
}

/// Rounding a quotient to the nearest integer stays between the integers that
/// the quotient lies between.
proof fn lemma_round_half_even_between(n: nat, d: nat, lo: nat, hi: nat)
    requires
        d > 0,
        lo * d <= n <= hi * d,
    ensures
        lo <= round_half_even(n, d) <= hi,
{
    let q = n / d;
    let r = n % d;
    lemma_fundamental_div_mod(n as int, d as int);
    assert(q >= lo) by (nonlinear_arith)
        requires
            n == d * q + r,
            r < d,
            lo * d <= n,
            d > 0,
    ;
    assert(q <= hi) by (nonlinear_arith)
        requires
            n == d * q + r,
            0 <= r,
            n <= hi * d,
            d > 0,
    ;
    if q == hi {
        assert(r == 0) by (nonlinear_arith)
            requires
                n == d * q + r,
                0 <= r,
                n <= hi * d,
                q == hi,
        ;
    }
}

/// The significand and the binade of the binary64 number nearest to
/// `num / den`.
pub fn nearest_significand(num: u128, den: u128) -> (r: (u64, i32))
    requires
        is_size_quotient(num as nat, den as nat),
    ensures
        r.0 == significand(num as nat, den as nat),
        r.1 == binade(num as nat, den as nat),
        in_binade(num as nat, den as nat, r.1 as int),
        MIN_SIGNIFICAND <= r.0 <= END_SIGNIFICAND,
        -11 <= r.1 <= 92,
{
    let ghost n0 = num as nat;
    let ghost d0 = den as nat;
    let mut a: u128 = num;
    let mut b: u128 = den;
    let mut e: i32 = 0;
    proof {
        lemma_pow2_values();
    }
    if num < 0x10_0000_0000_0000 * den {
        while a < 0x10_0000_0000_0000 * den
            invariant
                is_size_quotient(n0, d0),
                n0 == num,
                d0 == den,
                0 <= e <= 92,
                a == n0 * pow2(e as nat),
                a < 0x20_0000_0000_0000 * den,
            decreases 92 - e,
        {
            proof {
                lemma_pow2_values();
                if e >= 92 {
                    lemma_pow2_adds(52, 40);
                    assert(n0 * pow2(92) == (n0 * 0x100_0000_0000) * 0x10_0000_0000_0000)
                        by (nonlinear_arith)
                        requires
                            pow2(92) == 0x10_0000_0000_0000 * 0x100_0000_0000,
                    ;
                }
                lemma_pow2_adds(e as nat, 1);
                assert(n0 * (pow2(e as nat) * 2) == (n0 * pow2(e as nat)) * 2) by (nonlinear_arith);
            }
            a = a * 2;
            e = e + 1;
        }
    } else {
        assert(n0 * pow2(0) == n0 && d0 * pow2(0) == d0) by (nonlinear_arith)
            requires
                pow2(0) == 1,
        ;
        while a >= 0x20_0000_0000_0000 * b
            invariant
                is_size_quotient(n0, d0),
                n0 == num,
                d0 == den,
                a == n0,
                -11 <= e <= 0,
                b == d0 * pow2((-e) as nat),
                0 < b <= 0x1000_0000_0000_0000 * 0x800,
                0x10_0000_0000_0000 * b <= a,
            decreases 11 + e,
        {
            proof {
                lemma_pow2_values();
                let p = pow2((-e) as nat);
                assert(e > -11 && 2 * b <= 0x1000_0000_0000_0000 * 0x800) by {
                    assert(p < 0x800) by (nonlinear_arith)
                        requires
                            n0 >= 0x20_0000_0000_0000 * (d0 * p),
                            n0 < d0 * 0x1_0000_0000_0000_0000,
                            d0 > 0,
                    ;
                    if e <= -10 {
                        lemma_pow2_adds(10, 1);
                        if e == -11 {
                            assert(false);
                        }
                    }
                    if e > -10 {
                        lemma_pow2_strictly_increases((-e) as nat, 10);
                    }
                    lemma2_to64();
                    assert(d0 * p <= 0x1000_0000_0000_0000 * 0x400) by (nonlinear_arith)
                        requires
                            d0 <= 0x1000_0000_0000_0000,
                            p <= 0x400,
                            d0 > 0,
                    ;
                }
                lemma_pow2_adds((-e) as nat, 1);
                assert(d0 * (p * 2) == (d0 * p) * 2) by (nonlinear_arith);
            }
            b = b * 2;
            e = e - 1;
        }
    }
    proof {
        if e == 0 {
            assert(n0 * pow2(0) == n0 && d0 * pow2(0) == d0) by (nonlinear_arith)
                requires
                    pow2(0) == 1,
            ;
        }
        assert(a == shifted_num(n0, e as int));
        assert(b == shifted_den(d0, e as int));
        lemma_is_binade(n0, d0, e as int);
        lemma_fundamental_div_mod(a as int, b as int);
        lemma_round_half_even_between(
            a as nat,
            b as nat,
            MIN_SIGNIFICAND as nat,
            END_SIGNIFICAND as nat,
        );
        assert(a / b < 0x20_0000_0000_0000) by (nonlinear_arith)
            requires
                a < 0x20_0000_0000_0000 * b,
                b > 0,
        ;
        assert(a / b >= 0) by (nonlinear_arith)
            requires
                b > 0,
        ;
    }
    let q: u128 = a / b;
    let rest: u128 = a % b;
    let up: bool = if 2 * rest < b {
        false
    } else if 2 * rest == b {
        q % 2 != 0
    } else {
        true
    };
    let m: u128 = if up {
        q + 1
    } else {
        q
    };
    (m as u64, e)
}

/// Some power of two not below `e` brings a small quotient to the size of a
/// significand.
proof fn lemma_binade_above(num: nat, den: nat, e: nat) -> (r: int)
    requires
        num > 0,
        den > 0,
        num * pow2(e) < END_SIGNIFICAND * den,
    ensures
        in_binade(num, den, r),
    decreases END_SIGNIFICAND * den - num * pow2(e),
{
    let a = num * pow2(e);
    if a >= MIN_SIGNIFICAND * den {
        e as int
    } else {
        lemma_pow2_values();
        lemma_pow2_pos(e);
        lemma_pow2_adds(e, 1);
        assert(num * (pow2(e) * 2) == (num * pow2(e)) * 2) by (nonlinear_arith);
        assert(a > 0) by (nonlinear_arith)
            requires
                a == num * pow2(e),
                num > 0,
                pow2(e) > 0,
        ;
        lemma_binade_above(num, den, e + 1)
    }
}

/// Some power of two not above `-e` brings a large quotient to the size of a
/// significand.
proof fn lemma_binade_below(num: nat, den: nat, e: nat) -> (r: int)
    requires
        den > 0,
        MIN_SIGNIFICAND * (den * pow2(e)) <= num,
    ensures
        in_binade(num, den, r),
    decreases num - den * pow2(e),
{
    let b = den * pow2(e);
    lemma_pow2_values();
    lemma_pow2_pos(e);
    assert(b > 0) by (nonlinear_arith)
        requires
            b == den * pow2(e),
            den > 0,
            pow2(e) > 0,
    ;
    if num < END_SIGNIFICAND * b {
        if e == 0 {
            assert(den * pow2(0) == den && num * pow2(0) == num) by (nonlinear_arith)
                requires
                    pow2(0) == 1,
            ;
            assert(shifted_num(num, 0) == num);
        }
        assert(shifted_den(den, -e) == b);
        assert(shifted_num(num, -e) == num);
        -e
    } else {
        lemma_pow2_adds(e, 1);
        assert(den * (pow2(e) * 2) == (den * pow2(e)) * 2) by (nonlinear_arith);
        lemma_binade_below(num, den, e + 1)
    }
}

/// Every positive quotient has a binade.
pub proof fn lemma_has_binade(num: nat, den: nat)
    requires
        num > 0,
        den > 0,
    ensures
        in_binade(num, den, binade(num, den)),
{
    lemma_pow2_values();
    assert(den * pow2(0) == den && num * pow2(0) == num) by (nonlinear_arith)
        requires
            pow2(0) == 1,
    ;
    if num < END_SIGNIFICAND * den {
        let e = lemma_binade_above(num, den, 0);
        assert(in_binade(num, den, e));
    } else {
        let e = lemma_binade_below(num, den, 0);
        assert(in_binade(num, den, e));
    }
}

/// A quotient of at least `lo` is rounded to at least `lo`.
pub proof fn lemma_round_quotient_at_least(num: nat, den: nat, lo: nat)
    requires
        den > 0,
        lo * den <= num,
        lo <= END_SIGNIFICAND,
    ensures
        lo <= round_quotient(num, den),
{
    if num == 0 {
        assert(lo == 0) by (nonlinear_arith)
            requires
                den > 0,
                lo * den <= 0,
        ;
    } else {
        lemma_has_binade(num, den);
        lemma_pow2_values();
        let e = binade(num, den);
        let a = shifted_num(num, e);
        let b = shifted_den(den, e);
        let m = significand(num, den);
        lemma_shifted_den_positive(den, e);
        lemma_round_half_even_between(a, b, MIN_SIGNIFICAND as nat, END_SIGNIFICAND as nat);
        if e < 0 {
            let p = pow2((-e) as nat);
            if e < -1 {
                lemma_pow2_strictly_increases(1, (-e) as nat);
            }
            assert(m * p >= END_SIGNIFICAND) by (nonlinear_arith)
                requires
                    m >= MIN_SIGNIFICAND,
                    p >= 2,
                    END_SIGNIFICAND == 2 * MIN_SIGNIFICAND,
            ;
        } else {
            let p = pow2(e as nat);
            lemma_pow2_pos(e as nat);
            assert((lo * p) * den <= num * p) by (nonlinear_arith)
                requires
                    lo * den <= num,
                    p > 0,
            ;
            assert(num * p <= END_SIGNIFICAND * den);
            lemma_round_half_even_between(a, b, lo * p, END_SIGNIFICAND as nat);
            if e == 0 {
                assert(m * pow2(0) == m && lo * p == lo) by (nonlinear_arith)
                    requires
                        pow2(0) == 1,
                        p == 1,
                ;
            } else {
                let h = pow2((e - 1) as nat);
                assert((m + h) / p >= lo) by (nonlinear_arith)
                    requires
                        m >= lo * p,
                        h >= 0,
                        p > 0,
                ;
            }
        }
    }
}

/// A quotient of at most `hi` is rounded to at most `hi`.
pub proof fn lemma_round_quotient_at_most(num: nat, den: nat, hi: nat)
    requires
        den > 0,
        num <= hi * den,
        hi < END_SIGNIFICAND,
    ensures
        round_quotient(num, den) <= hi,
{
    if num > 0 {
        lemma_has_binade(num, den);
        lemma_pow2_values();
        let e = binade(num, den);
        let a = shifted_num(num, e);
        let b = shifted_den(den, e);
        let m = significand(num, den);
        lemma_shifted_den_positive(den, e);
        if e < 0 {
            let p = pow2((-e) as nat);
            if e < -1 {
                lemma_pow2_strictly_increases(1, (-e) as nat);
            }
            assert(num >= END_SIGNIFICAND * den) by (nonlinear_arith)
                requires
                    num >= MIN_SIGNIFICAND * (den * p),
                    p >= 2,
                    END_SIGNIFICAND == 2 * MIN_SIGNIFICAND,
            ;
            assert(hi * den < END_SIGNIFICAND * den) by (nonlinear_arith)
                requires
                    hi < END_SIGNIFICAND,
                    den > 0,
            ;
        } else {
            let p = pow2(e as nat);
            lemma_pow2_pos(e as nat);
            assert(num * p <= (hi * p) * den) by (nonlinear_arith)
                requires
                    num <= hi * den,
                    p > 0,
            ;
            lemma_round_half_even_between(a, b, 0, hi * p);
            if e == 0 {
                assert(m * pow2(0) == m && hi * p == hi) by (nonlinear_arith)
                    requires
                        pow2(0) == 1,
                        p == 1,
                ;
            } else {
                let h = pow2((e - 1) as nat);
                lemma_pow2_strictly_increases((e - 1) as nat, e as nat);
                assert((m + h) / p <= hi) by (nonlinear_arith)
                    requires
                        m <= hi * p,
                        0 <= h < p,
                ;
            }
        }
    }
}

/// `2^e` for an exponent that fits 128 bits.
pub fn power_of_two(e: u32) -> (r: u128)
    requires
        e <= 92,
    ensures
        r == pow2(e as nat),
        r <= 0x100_0000_0000 * 0x10_0000_0000_0000,
{
    let mut r: u128 = 1;
    let mut i: u32 = 0;
    proof {
        lemma_pow2_values();
    }
    while i < e
        invariant
            i <= e <= 92,
            r == pow2(i as nat),
            r <= 0x100_0000_0000 * 0x10_0000_0000_0000,
        decreases e - i,
    {
        proof {
            lemma_pow2_values();
            lemma_pow2_adds(i as nat, 1);
            lemma_pow2_adds(52, 40);
            if i + 1 < 92 {
                lemma_pow2_strictly_increases((i + 1) as nat, 92);
            }
        }
        r = r * 2;
        i = i + 1;
    }
    r
}

/// The integer nearest to the binary64 number nearest to `num / den`.
pub fn rounded_quotient(num: u128, den: u128) -> (r: u128)
    requires
        num == 0 || is_size_quotient(num as nat, den as nat),
    ensures
        r == round_quotient(num as nat, den as nat),
{
    if num == 0 {
        return 0;
    }
    let (m, e): (u64, i32) = nearest_significand(num, den);
    if e <= 0 {
        let p: u128 = power_of_two((-e) as u32);
        proof {
            lemma_pow2_values();
            if -e < 11 {
                lemma_pow2_strictly_increases((-e) as nat, 11);
            }
            assert(m * p <= 0x20_0000_0000_0000 * 0x800) by (nonlinear_arith)
                requires
                    m <= 0x20_0000_0000_0000,
                    p <= 0x800,
            ;
        }
        (m as u128) * p
    } else {
        let h: u128 = power_of_two((e - 1) as u32);
        let p: u128 = power_of_two(e as u32);
        proof {
            lemma_pow2_pos(e as nat);
        }
        ((m as u128) + h) / p
    }
}

/// `m` over two to the power `e` is the binary64 number nearest to `num / den`:
/// no other number with 53 significant bits is nearer, and of two equally near
/// ones it is the even one.
pub open spec fn is_nearest_number(num: nat, den: nat, m: nat, e: int) -> bool {
    let n: nat = if e >= 0 {
        num * pow2(e as nat)
    } else {
        num
    };
    let d: nat = if e >= 0 {
        den
    } else {
        den * pow2((-e) as nat)
    };
    &&& 0x10_0000_0000_0000 * d <= n < 0x20_0000_0000_0000 * d
    &&& -d <= 2 * (m * d - n) <= d
    &&& 2 * (m * d - n) == d || 2 * (m * d - n) == -d ==> m % 2 == 0
}

/// `r` is the integer nearest to `m` over two to the power `e`; of two equally
/// near ones it is the larger one.
pub open spec fn is_nearest_integer(m: nat, e: int, r: nat) -> bool {
    if e <= 0 {
        r == m * pow2((-e) as nat)
    } else {
        2 * (r * pow2(e as nat)) - pow2(e as nat) <= 2 * m < 2 * (r * pow2(e as nat)) + pow2(
            e as nat,
        )
    }
}

/// `r` is what binary64 arithmetic makes of the quotient `num / den`, rounded to
/// an integer.
pub open spec fn is_rounding(num: nat, den: nat, r: nat) -> bool {
    exists|m: nat, e: int| #[trigger]
        is_nearest_number(num, den, m, e) && is_nearest_integer(m, e, r)
}

/// Quotients are rounded as binary64 arithmetic rounds them: first to the
/// nearest number, and then to the integer nearest to that.
pub proof fn law_quotients_round_to_nearest(num: nat, den: nat)
    requires
        num > 0,
        den > 0,
    ensures
        is_nearest_number(num, den, significand(num, den), binade(num, den)),
        is_nearest_integer(significand(num, den), binade(num, den), round_quotient(num, den)),
        is_rounding(num, den, round_quotient(num, den)),
{
    lemma_has_binade(num, den);
    let e = binade(num, den);
    let m = significand(num, den);
    let a = shifted_num(num, e);
    let b = shifted_den(den, e);
    lemma_shifted_den_positive(den, e);
    lemma_fundamental_div_mod(a as int, b as int);
    let q = a / b;
    let rest = a % b;
    assert(m * b - a == (m - q) * b - rest) by (nonlinear_arith)
        requires
            a == b * q + rest,
    ;
    assert(m - q == 0 || m - q == 1);
    assert((m - q) * b == if m == q {
        0
    } else {
        b as int
    }) by (nonlinear_arith)
        requires
            m - q == 0 || m - q == 1,
    ;
    assert(is_nearest_number(num, den, m, e));
    if e > 0 {
        lemma_pow2_values();
        lemma_pow2_adds((e - 1) as nat, 1);
        lemma_pow2_pos((e - 1) as nat);
        let h = pow2((e - 1) as nat);
        let p = pow2(e as nat);
        let r = round_quotient(num, den);
        lemma_fundamental_div_mod((m + h) as int, p as int);
        assert(p * r == r * p) by (nonlinear_arith);
    }
    assert(is_nearest_integer(m, e, round_quotient(num, den)));
}

/// Rounding has one outcome.
pub proof fn law_rounding_is_unique(num: nat, den: nat, a: nat, b: nat)
    requires
        num > 0,
        den > 0,
        is_rounding(num, den, a),
        is_rounding(num, den, b),
    ensures
        a == b,
{
    let (m1, e1) = choose|m: nat, e: int| #[trigger]
        is_nearest_number(num, den, m, e) && is_nearest_integer(m, e, a);
    let (m2, e2) = choose|m: nat, e: int| #[trigger]
        is_nearest_number(num, den, m, e) && is_nearest_integer(m, e, b);
    assert(in_binade(num, den, e1));
    assert(in_binade(num, den, e2));
    lemma_binade_unique(num, den, e1, e2);
    lemma_shifted_den_positive(den, e1);
    let n = shifted_num(num, e1) as int;
    let d = shifted_den(den, e1) as int;
    assert(-1 <= m1 - m2 <= 1) by (nonlinear_arith)
        requires
            -d <= 2 * (m1 * d - n) <= d,
            -d <= 2 * (m2 * d - n) <= d,
            d > 0,
    ;
    if m1 != m2 {
        assert((m1 - m2) * d == d || (m1 - m2) * d == -d) by (nonlinear_arith)
            requires
                m1 - m2 == 1 || m1 - m2 == -1,
        ;
        assert(m1 * d - m2 * d == (m1 - m2) * d) by (nonlinear_arith);
        assert(m1 % 2 == 0 && m2 % 2 == 0);
    }
    if e1 > 0 {
        let p = pow2(e1 as nat);
        lemma_pow2_pos(e1 as nat);
        assert(a == b) by (nonlinear_arith)
            requires
                2 * (a * p) - p <= 2 * m1 < 2 * (a * p) + p,
                2 * (b * p) - p <= 2 * m1 < 2 * (b * p) + p,
                p > 0,
        ;
    }
}

/// A quotient half way between two integers is rounded to the larger one.
pub proof fn law_halves_round_up(q: nat, den: nat)
    requires
        den > 0,
        q < 0x8_0000_0000_0000,
    ensures
        round_quotient((2 * q + 1) * den, 2 * den) == q + 1,
{
    let num = (2 * q + 1) * den;
    let dd = 2 * den;
    assert(num > 0 && q * dd <= num <= (q + 1) * dd) by (nonlinear_arith)
        requires
            num == (2 * q + 1) * den,
            dd == 2 * den,
            den > 0,
    ;
    lemma_round_quotient_at_least(num, dd, q);
    lemma_round_quotient_at_most(num, dd, q + 1);
    law_quotients_round_to_nearest(num, dd);
    lemma_pow2_values();
    let e = binade(num, dd);
    let m = significand(num, dd);
    if e <= 0 {
        let p = pow2((-e) as nat);
        lemma_pow2_pos((-e) as nat);
        if e < 0 {
            assert(num < 0x10_0000_0000_0000 * (dd * p)) by (nonlinear_arith)
                requires
                    num == (2 * q + 1) * den,
                    dd == 2 * den,
                    q < 0x8_0000_0000_0000,
                    p >= 1,
                    den > 0,
            ;
        } else {
            assert(num * pow2(0) == num) by (nonlinear_arith)
                requires
                    pow2(0) == 1,
            ;
            assert(num < 0x10_0000_0000_0000 * dd) by (nonlinear_arith)
                requires
                    num == (2 * q + 1) * den,
                    dd == 2 * den,
                    q < 0x8_0000_0000_0000,
                    den > 0,
            ;
        }
        assert(false);
    } else {
        lemma_pow2_adds((e - 1) as nat, 1);
        let h = pow2((e - 1) as nat);
        let p = pow2(e as nat);
        assert(num * p == ((2 * q + 1) * h) * dd) by (nonlinear_arith)
            requires
                num == (2 * q + 1) * den,
                dd == 2 * den,
                p == 2 * h,
        ;
        let exact = (2 * q + 1) * h;
        assert(m == exact) by (nonlinear_arith)
            requires
                -dd <= 2 * (m * dd - exact * dd) <= dd,
                dd > 0,
        ;
        let r = round_quotient(num, dd);
        assert(2 * m == 2 * (q * p) + p) by (nonlinear_arith)
            requires
                m == (2 * q + 1) * h,
                p == 2 * h,
        ;
        if r == q {
            assert(false);
        }
    }
}

} // verus!
