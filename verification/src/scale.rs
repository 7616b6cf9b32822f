//! The scale between logical and physical pixels.

use vstd::prelude::*;
use vstd::arithmetic::power2::*;

use crate::rounding::{
    binade, in_binade, is_rounding, law_quotients_round_to_nearest, lemma_has_binade,
    lemma_is_binade, lemma_pow2_values,
    lemma_round_quotient_at_least, lemma_round_quotient_at_most, nearest_significand,
    power_of_two, round_quotient, rounded_quotient, significand, END_SIGNIFICAND,
    MIN_SIGNIFICAND,
};

verus! {

/// The unit in which a compositor reports a fractional scale: one 120th.
pub const SCALE_UNIT: u32 = 120;

/// A positive binary64 number, `significand` over two to the power `shift`:
/// how many physical pixels one logical pixel covers along each axis.
#[derive(Clone, Copy, Debug, PartialEq, Eq, Structural)]
pub struct OutputScale {
    pub significand: u64,
    pub shift: u32,
}

/// A rounded size as a pixel count: at least one pixel, at most `u32::MAX`.
pub open spec fn pixel_count(size: nat) -> nat {
    if size < 1 {
        1
    } else if size > u32::MAX {
        u32::MAX as nat
    } else {
        size
    }
}

impl OutputScale {
    /// The number is normalised, and lies between one 128th and two to the
    /// power 31.
    pub open spec fn wf(self) -> bool {
        &&& MIN_SIGNIFICAND <= self.significand < END_SIGNIFICAND
        &&& 22 <= self.shift <= 59
    }

    /// The scale is exactly `factor`.
    pub open spec fn is_factor(self, factor: nat) -> bool {
        self.significand == factor * pow2(self.shift as nat)
    }

    /// The scale is the binary64 number nearest to `num / den`.
    pub open spec fn is_nearest_to(self, num: nat, den: nat) -> bool {
        &&& binade(num, den) >= 0
        &&& self.significand * pow2(binade(num, den) as nat) == significand(num, den) * pow2(
            self.shift as nat,
        )
    }

    /// The scale of an unscaled output.
    pub open spec fn unit() -> OutputScale {
        OutputScale { significand: MIN_SIGNIFICAND, shift: 52 }
    }

    /// The scale, or one where the scale is below one.
    pub open spec fn at_least_one(self) -> OutputScale {
        if self.significand < pow2(self.shift as nat) {
            OutputScale::unit()
        } else {
            self
        }
    }

    /// `logical` pixels in physical pixels: the binary64 product, rounded to
    /// the nearest integer.
    pub open spec fn physical(self, logical: nat) -> nat {
        pixel_count(round_quotient(logical * self.significand as nat, pow2(self.shift as nat)))
    }

    /// `physical` pixels in logical pixels: the binary64 quotient, rounded to
    /// the nearest integer.
    pub open spec fn logical(self, physical: nat) -> nat {
        pixel_count(round_quotient(physical * pow2(self.shift as nat), self.significand as nat))
    }

    /// The binary64 encoding of the scale: a sign bit of zero, the biased
    /// exponent and the significand without its leading bit.
    pub open spec fn encoding(self) -> int {
        (1075 - self.shift) * MIN_SIGNIFICAND + (self.significand - MIN_SIGNIFICAND)
    }
}

/// A power of two between the bounds of a scale's shift.
proof fn lemma_shift_bounds(shift: nat)
    requires
        22 <= shift <= 59,
    ensures
        0x40_0000 <= pow2(shift) <= 0x800_0000_0000_0000,
{
    lemma2_to64();
    lemma2_to64_rest();
    if 22 < shift {
        lemma_pow2_strictly_increases(22, shift);
    }
    if shift < 59 {
        lemma_pow2_strictly_increases(shift, 59);
    }
}

impl OutputScale {
    /// The scale of an unscaled output.
    pub fn one() -> (r: OutputScale)
        ensures
            r == OutputScale::unit(),
            r.wf(),
            r.is_factor(1),
    {
        proof {
            lemma_pow2_values();
        }
        OutputScale { significand: MIN_SIGNIFICAND, shift: 52 }
    }

    /// The scale that an output reports as an integer.
    pub fn from_factor(factor: i32) -> (r: OutputScale)
        requires
            factor > 0,
        ensures
            r.wf(),
            r.is_factor(factor as nat),
    {
        let mut significand: u64 = factor as u64;
        let mut shift: u32 = 0;
        proof {
            lemma_pow2_values();
            assert(factor * pow2(0) == factor) by (nonlinear_arith)
                requires
                    pow2(0) == 1,
            ;
        }
        while significand < MIN_SIGNIFICAND
            invariant
                0 < factor,
                0 < significand < END_SIGNIFICAND,
                shift <= 52,
                significand == factor as nat * pow2(shift as nat),
            decreases END_SIGNIFICAND - significand,
        {
            proof {
                lemma_pow2_values();
                let f = factor as nat;
                let p = pow2(shift as nat);
                if shift == 52 {
                    assert(f * p >= p) by (nonlinear_arith)
                        requires
                            f >= 1,
                    ;
                }
                lemma_pow2_adds(shift as nat, 1);
                assert(f * (p * 2) == (f * p) * 2) by (nonlinear_arith);
            }
            significand = significand * 2;
            shift = shift + 1;
        }
        proof {
            if shift < 22 {
                lemma_pow2_strictly_increases(shift as nat, 22);
                lemma2_to64();
                let f = factor as nat;
                let p = pow2(shift as nat);
                assert(f * p < 0x10_0000_0000_0000) by (nonlinear_arith)
                    requires
                        f < 0x8000_0000,
                        p <= 0x20_0000,
                        f >= 0,
                ;
            }
        }
        OutputScale { significand, shift }
    }

    /// The scale that a surface prefers, reported in 120ths.
    pub fn from_preferred(scale: u32) -> (r: OutputScale)
        requires
            scale > 0,
        ensures
            r.wf(),
            r.is_nearest_to(scale as nat, SCALE_UNIT as nat),
    {
        let (m, e): (u64, i32) = nearest_significand(scale as u128, SCALE_UNIT as u128);
        proof {
            lemma_preferred_binade(scale, e as int);
            lemma_pow2_values();
            lemma_pow2_adds((e - 1) as nat, 1);
            assert(MIN_SIGNIFICAND * pow2(e as nat) == END_SIGNIFICAND * pow2((e - 1) as nat))
                by (nonlinear_arith)
                requires
                    pow2(e as nat) == 2 * pow2((e - 1) as nat),
                    END_SIGNIFICAND == 2 * MIN_SIGNIFICAND,
            ;
        }
        if m == END_SIGNIFICAND {
            OutputScale { significand: MIN_SIGNIFICAND, shift: (e - 1) as u32 }
        } else {
            OutputScale { significand: m, shift: e as u32 }
        }
    }

    /// Whether the scale is one.
    pub fn is_one(self) -> (r: bool)
        ensures
            r == (self == OutputScale::unit()),
    {
        self.significand == MIN_SIGNIFICAND && self.shift == 52
    }

    /// The scale, or one where the scale is below one.
    pub fn effective(self) -> (r: OutputScale)
        requires
            self.wf(),
        ensures
            r == self.at_least_one(),
            r.wf(),
    {
        proof {
            lemma_pow2_values();
            if self.shift < 52 {
                lemma_pow2_strictly_increases(self.shift as nat, 52);
            } else if self.shift > 52 {
                lemma_pow2_strictly_increases(52, self.shift as nat);
                lemma_pow2_adds(52, 1);
                if self.shift > 53 {
                    lemma_pow2_strictly_increases(53, self.shift as nat);
                }
            }
        }
        if self.shift > 52 {
            OutputScale::one()
        } else {
            self
        }
    }

    /// `logical` pixels in physical pixels.
    pub fn to_physical(self, logical: u32) -> (r: u32)
        requires
            self.wf(),
        ensures
            r == self.physical(logical as nat),
            r >= 1,
    {
        proof {
            lemma_shift_bounds(self.shift as nat);
        }
        let den: u128 = power_of_two(self.shift);
        proof {
            let l = logical as nat;
            let s = self.significand as nat;
            assert(l * s < 0x1_0000_0000 * 0x20_0000_0000_0000) by (nonlinear_arith)
                requires
                    l < 0x1_0000_0000,
                    s < 0x20_0000_0000_0000,
            ;
            if l > 0 {
                assert(l * s >= s) by (nonlinear_arith)
                    requires
                        l >= 1,
                ;
            } else {
                assert(l * s == 0) by (nonlinear_arith)
                    requires
                        l == 0,
                ;
            }
        }
        let num: u128 = (logical as u128) * (self.significand as u128);
        to_pixel_count(rounded_quotient(num, den))
    }

    /// `physical` pixels in logical pixels.
    pub fn to_logical(self, physical: u32) -> (r: u32)
        requires
            self.wf(),
        ensures
            r == self.logical(physical as nat),
            r >= 1,
    {
        proof {
            lemma_shift_bounds(self.shift as nat);
        }
        let p: u128 = power_of_two(self.shift);
        proof {
            let l = physical as nat;
            assert(l * p < 0x1_0000_0000 * 0x800_0000_0000_0001) by (nonlinear_arith)
                requires
                    l < 0x1_0000_0000,
                    p <= 0x800_0000_0000_0000,
            ;
            if l > 0 {
                assert(l * p >= p) by (nonlinear_arith)
                    requires
                        l >= 1,
                ;
            } else {
                assert(l * p == 0) by (nonlinear_arith)
                    requires
                        l == 0,
                ;
            }
        }
        let num: u128 = (physical as u128) * p;
        to_pixel_count(rounded_quotient(num, self.significand as u128))
    }

    /// The binary64 encoding of the scale.
    pub fn bits(self) -> (r: u64)
        requires
            self.wf(),
        ensures
            r == self.encoding(),
    {
        ((1075 - self.shift) as u64) * MIN_SIGNIFICAND + (self.significand - MIN_SIGNIFICAND)
    }
}

/// A rounded size as a pixel count.
fn to_pixel_count(size: u128) -> (r: u32)
    ensures
        r == pixel_count(size as nat),
        r >= 1,
{
    if size < 1 {
        1
    } else if size > u32::MAX as u128 {
        u32::MAX
    } else {
        size as u32
    }
}

/// The binade of a scale reported in 120ths.
proof fn lemma_preferred_binade(scale: u32, e: int)
    requires
        scale > 0,
        in_binade(scale as nat, SCALE_UNIT as nat, e),
    ensures
        27 <= e <= 59,
{
    lemma2_to64();
    lemma2_to64_rest();
    let s = scale as nat;
    if e < 0 {
        lemma_pow2_pos((-e) as nat);
        let p = pow2((-e) as nat);
        assert(0x10_0000_0000_0000 * (120 * p) > s) by (nonlinear_arith)
            requires
                p >= 1,
                s < 0x1_0000_0000,
        ;
    } else if e < 27 {
        lemma_pow2_strictly_increases(e as nat, 27);
        let p = pow2(e as nat);
        assert(p <= 0x400_0000) by {
            if e < 26 {
                lemma_pow2_strictly_increases(e as nat, 26);
            }
        }
        assert(s * p < 0x10_0000_0000_0000 * 120) by (nonlinear_arith)
            requires
                s < 0x1_0000_0000,
                p <= 0x400_0000,
        ;
    } else if e > 59 {
        let p = pow2(e as nat);
        assert(p >= 0x1000_0000_0000_0000) by {
            if e > 60 {
                lemma_pow2_strictly_increases(60, e as nat);
            }
        }
        assert(s * p >= 0x20_0000_0000_0000 * 120) by (nonlinear_arith)
            requires
                s >= 1,
                p >= 0x1000_0000_0000_0000,
        ;
    }
}

/// A quotient that is an integer below two to the power 53 is rounded to
/// itself.
proof fn lemma_exact_quotient(q: nat, den: nat)
    requires
        den > 0,
        q < END_SIGNIFICAND,
    ensures
        round_quotient(q * den, den) == q,
{
    lemma_round_quotient_at_least(q * den, den, q);
    lemma_round_quotient_at_most(q * den, den, q);
}

/// An unscaled output keeps every size, in both directions.
pub proof fn law_unit_scale_keeps_sizes(size: nat)
    requires
        1 <= size <= u32::MAX,
    ensures
        OutputScale::unit().physical(size) == size,
        OutputScale::unit().logical(size) == size,
{
    lemma_pow2_values();
    lemma_exact_quotient(size, pow2(52));
}

/// A buffer is never smaller than the surface it covers, and a surface never
/// larger than the output's mode.
pub proof fn law_physical_covers_logical(scale: OutputScale, size: nat)
    requires
        scale.wf(),
        1 <= size <= u32::MAX,
    ensures
        scale.at_least_one().physical(size) >= size,
        scale.at_least_one().logical(size) <= size,
{
    let s = scale.at_least_one();
    lemma_pow2_values();
    lemma_shift_bounds(s.shift as nat);
    let p = pow2(s.shift as nat);
    let m = s.significand as nat;
    assert(size * p <= size * m) by (nonlinear_arith)
        requires
            p <= m,
    ;
    lemma_round_quotient_at_least(size * m, p, size);
    lemma_round_quotient_at_most(size * p, m, size);
}

/// Under an integer scale a surface takes that many physical pixels per
/// logical one, up to the largest pixel count.
pub proof fn law_integer_scale_multiplies(scale: OutputScale, factor: nat, size: nat)
    requires
        scale.wf(),
        scale.is_factor(factor),
        1 <= size <= u32::MAX,
    ensures
        scale.physical(size) == if size * factor <= u32::MAX {
            size * factor
        } else {
            u32::MAX as nat
        },
{
    lemma_shift_bounds(scale.shift as nat);
    let p = pow2(scale.shift as nat);
    let m = scale.significand as nat;
    assert(size * (factor * p) == (size * factor) * p) by (nonlinear_arith);
    assert(factor >= 1) by (nonlinear_arith)
        requires
            factor * p > 0,
            p > 0,
            factor >= 0,
    ;
    assert(size * factor >= 1) by (nonlinear_arith)
        requires
            size >= 1,
            factor >= 1,
    ;
    if size * factor < END_SIGNIFICAND {
        lemma_exact_quotient(size * factor, p);
    } else {
        assert(END_SIGNIFICAND * p <= (size * factor) * p) by (nonlinear_arith)
            requires
                size * factor >= END_SIGNIFICAND,
        ;
        lemma_round_quotient_at_least(size * m, p, END_SIGNIFICAND as nat);
    }
}

/// Under an integer scale that divides the mode, the surface takes the exact
/// share of it, and the buffer of that surface is the whole mode again.
pub proof fn law_integer_scale_divides(scale: OutputScale, factor: nat, size: nat)
    requires
        scale.wf(),
        scale.is_factor(factor),
        1 <= size * factor <= u32::MAX,
    ensures
        scale.logical(size * factor) == size,
        scale.physical(scale.logical(size * factor)) == size * factor,
{
    lemma_shift_bounds(scale.shift as nat);
    let p = pow2(scale.shift as nat);
    let m = scale.significand as nat;
    assert((size * factor) * p == size * (factor * p)) by (nonlinear_arith);
    assert(1 <= size <= size * factor) by (nonlinear_arith)
        requires
            1 <= size * factor,
            factor >= 1,
            size >= 0,
    ;
    lemma_exact_quotient(size, m);
    law_integer_scale_multiplies(scale, factor, size);
}

/// Normalised numbers that are equal are the same.
proof fn lemma_same_number(a: OutputScale, b: OutputScale)
    requires
        a.wf(),
        b.wf(),
        a.significand * pow2(b.shift as nat) == b.significand * pow2(a.shift as nat),
    ensures
        a == b,
{
    lemma_pow2_values();
    if a.shift < b.shift {
        lemma_not_later(a, b);
    } else if b.shift < a.shift {
        lemma_not_later(b, a);
    } else {
        let p = pow2(a.shift as nat);
        lemma_shift_bounds(a.shift as nat);
        assert(a.significand == b.significand) by (nonlinear_arith)
            requires
                a.significand * p == b.significand * p,
                p > 0,
        ;
    }
}

proof fn lemma_not_later(a: OutputScale, b: OutputScale)
    requires
        a.wf(),
        b.wf(),
        a.shift < b.shift,
    ensures
        a.significand * pow2(b.shift as nat) != b.significand * pow2(a.shift as nat),
{
    lemma_pow2_values();
    let d = (b.shift - a.shift) as nat;
    let p = pow2(a.shift as nat);
    let k = pow2(d);
    lemma_pow2_adds(a.shift as nat, d);
    lemma_shift_bounds(a.shift as nat);
    if d > 1 {
        lemma_pow2_strictly_increases(1, d);
    }
    assert(a.significand * (p * k) > b.significand * p) by (nonlinear_arith)
        requires
            a.significand >= MIN_SIGNIFICAND,
            b.significand < 2 * MIN_SIGNIFICAND,
            k >= 2,
            p > 0,
    ;
}

/// A report of the compositor determines the scale: two scales of one report
/// are the same.
pub proof fn law_report_determines_scale(a: OutputScale, b: OutputScale, num: nat, den: nat)
    requires
        a.wf(),
        b.wf(),
        num > 0,
        den > 0,
        a.is_nearest_to(num, den),
        b.is_nearest_to(num, den),
    ensures
        a == b,
{
    lemma_has_binade(num, den);
    let e = binade(num, den) as nat;
    let p = pow2(e);
    lemma_pow2_pos(e);
    let pa = pow2(a.shift as nat);
    let pb = pow2(b.shift as nat);
    let s = significand(num, den);
    assert((a.significand * pb) * p == (b.significand * pa) * p) by (nonlinear_arith)
        requires
            a.significand * p == s * pa,
            b.significand * p == s * pb,
    ;
    assert(a.significand * pb == b.significand * pa) by (nonlinear_arith)
        requires
            (a.significand * pb) * p == (b.significand * pa) * p,
            p > 0,
    ;
    lemma_same_number(a, b);
}

/// An integer determines its scale.
pub proof fn law_factor_determines_scale(a: OutputScale, b: OutputScale, factor: nat)
    requires
        a.wf(),
        b.wf(),
        a.is_factor(factor),
        b.is_factor(factor),
    ensures
        a == b,
{
    let pa = pow2(a.shift as nat);
    let pb = pow2(b.shift as nat);
    assert((factor * pa) * pb == (factor * pb) * pa) by (nonlinear_arith);
    lemma_same_number(a, b);
}

/// A preferred scale that is a whole number of units is the integer scale of
/// that number: 120 is one, 240 is two.
pub proof fn law_whole_preferred_scale(preferred: OutputScale, integer: OutputScale, factor: nat)
    requires
        preferred.wf(),
        integer.wf(),
        preferred.is_nearest_to(factor * SCALE_UNIT as nat, SCALE_UNIT as nat),
        integer.is_factor(factor),
    ensures
        preferred == integer,
{
    lemma_pow2_values();
    lemma_shift_bounds(integer.shift as nat);
    let e = integer.shift as nat;
    let p = pow2(e);
    let num = factor * SCALE_UNIT as nat;
    let m = integer.significand as nat;
    assert((factor * 120) * p == m * 120) by (nonlinear_arith)
        requires
            m == factor * p,
    ;
    assert(in_binade(num, 120, e as int));
    lemma_is_binade(num, 120, e as int);
    assert((m * 120) / 120 == m && (m * 120) % 120 == 0);
    assert(significand(num, 120) == m);
    lemma_same_number(preferred, integer);
}

/// The pixels of a size under a scale are the binary64 product of the two,
/// rounded to the nearest integer, but at least one and at most the largest
/// `u32`; and the logical pixels are the binary64 quotient, treated alike.
pub proof fn law_sizes_are_rounded_products(scale: OutputScale, size: nat)
    requires
        scale.wf(),
        size > 0,
    ensures
        exists|r: nat| #[trigger]
            is_rounding(size * scale.significand as nat, pow2(scale.shift as nat), r) && (if r == 0 {
                scale.physical(size) == 1
            } else if r <= 0xFFFF_FFFF {
                scale.physical(size) == r
            } else {
                scale.physical(size) == 0xFFFF_FFFF
            }),
        exists|r: nat| #[trigger]
            is_rounding(size * pow2(scale.shift as nat), scale.significand as nat, r) && (if r == 0 {
                scale.logical(size) == 1
            } else if r <= 0xFFFF_FFFF {
                scale.logical(size) == r
            } else {
                scale.logical(size) == 0xFFFF_FFFF
            }),
{
    let m = scale.significand as nat;
    let p = pow2(scale.shift as nat);
    lemma_shift_bounds(scale.shift as nat);
    assert(size * m > 0 && size * p > 0) by (nonlinear_arith)
        requires
            size > 0,
            m > 0,
            p > 0,
    ;
    law_quotients_round_to_nearest(size * m, p);
    law_quotients_round_to_nearest(size * p, m);
    assert(is_rounding(size * m, p, round_quotient(size * m, p)));
    assert(is_rounding(size * p, m, round_quotient(size * p, m)));
}

/// Rounding passes no integer: where a size times its scale is at least
/// `pixels` so is the pixel count, where it is at most `pixels` the count is no
/// larger, and likewise where a size is divided by its scale.
pub proof fn law_rounding_passes_no_integer(scale: OutputScale, size: nat, pixels: nat)
    requires
        scale.wf(),
        1 <= pixels <= u32::MAX,
    ensures
        pixels * pow2(scale.shift as nat) <= size * scale.significand ==> scale.physical(size)
            >= pixels,
        size * scale.significand <= pixels * pow2(scale.shift as nat) ==> scale.physical(size)
            <= pixels,
        pixels * scale.significand <= size * pow2(scale.shift as nat) ==> scale.logical(size)
            >= pixels,
        size * pow2(scale.shift as nat) <= pixels * scale.significand ==> scale.logical(size)
            <= pixels,
{
    let m = scale.significand as nat;
    let p = pow2(scale.shift as nat);
    lemma_shift_bounds(scale.shift as nat);
    if pixels * p <= size * m {
        lemma_round_quotient_at_least(size * m, p, pixels);
    }
    if size * m <= pixels * p {
        lemma_round_quotient_at_most(size * m, p, pixels);
    }
    if pixels * m <= size * p {
        lemma_round_quotient_at_least(size * p, m, pixels);
    }
    if size * p <= pixels * m {
        lemma_round_quotient_at_most(size * p, m, pixels);
    }
}

/// A scale of at least one counts as it is, and one below as one.
pub proof fn law_scales_below_one_are_raised(scale: OutputScale)
    requires
        scale.wf(),
    ensures
        scale.significand >= pow2(scale.shift as nat) ==> scale.at_least_one() == scale,
        scale.significand < pow2(scale.shift as nat) ==> scale.at_least_one().is_factor(1),
        scale.at_least_one().significand >= pow2(scale.at_least_one().shift as nat),
        scale.at_least_one().wf(),
{
    lemma_pow2_values();
}

/// The scale one is the number one, and no other scale is.
pub proof fn law_only_the_unit_is_one(scale: OutputScale)
    requires
        scale.wf(),
    ensures
        scale == OutputScale::unit() <==> scale.significand == pow2(scale.shift as nat),
        OutputScale::unit().wf(),
{
    lemma_pow2_values();
    if scale.significand == pow2(scale.shift as nat) {
        assert(scale.is_factor(1));
        assert(OutputScale::unit().is_factor(1));
        law_factor_determines_scale(scale, OutputScale::unit(), 1);
    }
}

/// A report in 120ths gives the scale that is nearest to that many 120ths: what
/// it is off by is half of its last bit at most.
pub proof fn law_preferred_scale_counts_120ths(scale: OutputScale, report: u32)
    requires
        scale.wf(),
        report > 0,
        scale.is_nearest_to(report as nat, SCALE_UNIT as nat),
    ensures
        -120 <= 2 * (scale.significand * 120 - report * pow2(scale.shift as nat)) <= 120,
{
    let s = report as nat;
    lemma_has_binade(s, 120);
    law_quotients_round_to_nearest(s, 120);
    lemma_pow2_values();
    let e = binade(s, 120);
    lemma_preferred_binade(report, e);
    let m = significand(s, 120);
    let k = scale.shift as int;
    let big = scale.significand as nat;
    lemma_pow2_pos(e as nat);
    lemma_pow2_pos(k as nat);
    assert(m <= END_SIGNIFICAND && m >= MIN_SIGNIFICAND) by (nonlinear_arith)
        requires
            0x10_0000_0000_0000 * 120 <= s * pow2(e as nat) < 0x20_0000_0000_0000 * 120,
            -120 <= 2 * (m * 120 - s * pow2(e as nat)) <= 120,
            MIN_SIGNIFICAND == 0x10_0000_0000_0000,
            END_SIGNIFICAND == 0x20_0000_0000_0000,
    ;
    if k == e {
        let p = pow2(e as nat);
        assert(big == m) by (nonlinear_arith)
            requires
                big * p == m * p,
                p > 0,
        ;
    } else if k < e {
        let d = (e - k) as nat;
        let p = pow2(k as nat);
        let x = pow2(d);
        lemma_pow2_adds(k as nat, d);
        assert(big * x == m) by (nonlinear_arith)
            requires
                big * (p * x) == m * p,
                p > 0,
        ;
        if d > 1 {
            lemma_pow2_strictly_increases(1, d);
            assert(false) by (nonlinear_arith)
                requires
                    big * x == m,
                    big >= MIN_SIGNIFICAND,
                    x > 2,
                    m <= 2 * MIN_SIGNIFICAND,
            ;
        }
        assert(x == 2);
        assert(m == 2 * big) by (nonlinear_arith)
            requires
                big * x == m,
                x == 2,
        ;
        assert(s * pow2(e as nat) == 2 * (s * p)) by (nonlinear_arith)
            requires
                pow2(e as nat) == p * 2,
        ;
    } else {
        let d = (k - e) as nat;
        let p = pow2(e as nat);
        let x = pow2(d);
        lemma_pow2_adds(e as nat, d);
        assert(big == m * x) by (nonlinear_arith)
            requires
                big * p == m * (p * x),
                p > 0,
        ;
        if d > 1 {
            lemma_pow2_strictly_increases(1, d);
        }
        assert(false) by (nonlinear_arith)
            requires
                big == m * x,
                m >= MIN_SIGNIFICAND,
                x >= 2,
                big < 2 * MIN_SIGNIFICAND,
        ;
    }
}

/// The encoding of a scale holds its exponent above 52 bits of fraction, so that
/// a larger scale has a larger encoding.
pub proof fn law_encoding_holds_exponent_and_fraction(scale: OutputScale, other: OutputScale)
    requires
        scale.wf(),
        other.wf(),
    ensures
        0 < scale.encoding() <= u64::MAX,
        scale.encoding() / 0x10_0000_0000_0000 == 1023 + 52 - scale.shift,
        scale.encoding() % 0x10_0000_0000_0000 == scale.significand - 0x10_0000_0000_0000,
        scale.encoding() == other.encoding() ==> scale == other,
        scale.shift == other.shift ==> scale.encoding() - other.encoding() == scale.significand
            - other.significand,
{
}

} // verus!
