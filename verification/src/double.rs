//! Double-precision numbers carried as their bit patterns.
//!
//! Percentages reach the library as IEEE 754 doubles. The library never computes with them:
//! it compares them with small integers and cuts them to whole numbers. Both are decided here
//! on the bit pattern with integer arithmetic.
//!
//! Every double that is a number is a multiple of the smallest positive double, two to the
//! power minus 1074. The specifications count in that unit, so they are exact. Infinity counts
//! as two to the power 1024, which is above every finite double.
use vstd::arithmetic::mul::*;
use vstd::arithmetic::power2::*;
use vstd::bits::*;
use vstd::prelude::*;

verus! {

/// The bit pattern of an IEEE 754 double.
#[derive(Clone, Copy, Debug, PartialEq, Eq, Structural)]
pub struct Double {
    pub bits: u64,
}

/// Where a magnitude stands relative to a bound.
#[derive(Clone, Copy, Debug, PartialEq, Eq, Structural)]
pub enum Side {
    Below,
    Equal,
    Above,
}

/// The bit pattern of positive infinity; larger magnitudes are not numbers.
pub const INFINITY_BITS: u64 = 0x7FF0_0000_0000_0000;

/// The sign bit.
pub const SIGN_BIT: u64 = 0x8000_0000_0000_0000;

/// The weight of the lowest exponent bit.
pub const EXPONENT_UNIT: u64 = 0x10_0000_0000_0000;

/// One, counted in the smallest positive double.
pub open spec fn one() -> int {
    pow2(1074) as int
}

/// One half, counted in the smallest positive double.
pub open spec fn half() -> int {
    pow2(1073) as int
}

/// The significand of a magnitude: the fraction bits, with the hidden bit where there is one.
pub open spec fn significand(magnitude: u64) -> int {
    if magnitude < EXPONENT_UNIT {
        magnitude as int
    } else {
        EXPONENT_UNIT + magnitude % EXPONENT_UNIT
    }
}

/// How often the significand of a magnitude is doubled.
pub open spec fn doublings(magnitude: u64) -> nat {
    if magnitude < EXPONENT_UNIT {
        0
    } else {
        (magnitude / EXPONENT_UNIT - 1) as nat
    }
}

/// The value of a magnitude, counted in the smallest positive double.
pub open spec fn counted(magnitude: u64) -> int {
    significand(magnitude) * pow2(doublings(magnitude))
}

/// `x` cut to the range of `i64`.
pub open spec fn saturate_i64(x: int) -> i64 {
    if x < i64::MIN {
        i64::MIN
    } else if x > i64::MAX {
        i64::MAX
    } else {
        x as i64
    }
}

impl Double {
    /// The double without its sign.
    pub open spec fn magnitude(self) -> u64 {
        if self.bits >= SIGN_BIT {
            (self.bits - SIGN_BIT) as u64
        } else {
            self.bits
        }
    }

    /// Whether the double is a number, infinities among them.
    pub open spec fn is_number(self) -> bool {
        self.magnitude() <= INFINITY_BITS
    }

    /// The value of the double, counted in the smallest positive double.
    pub open spec fn value(self) -> int {
        if self.bits >= SIGN_BIT {
            -counted(self.magnitude())
        } else {
            counted(self.magnitude())
        }
    }

    /// The absolute value of the double, counted in the smallest positive double.
    pub open spec fn absolute(self) -> int {
        counted(self.magnitude())
    }

    /// The double cut towards zero to a whole number and to the range of `i64`. What is not a
    /// number becomes zero.
    pub open spec fn truncated(self) -> i64 {
        if !self.is_number() {
            0
        } else if self.bits >= SIGN_BIT {
            saturate_i64(-(self.absolute() / one()))
        } else {
            saturate_i64(self.absolute() / one())
        }
    }

    /// Positive zero.
    pub fn zero() -> (d: Double)
        ensures
            d.bits == 0,
            d.is_number(),
            d.value() == 0,
    {
        proof {
            lemma_counted_zero(0);
        }
        Double { bits: 0 }
    }

    fn magnitude_bits(self) -> (m: u64)
        ensures
            m == self.magnitude(),
            m < SIGN_BIT,
    {
        if self.bits >= SIGN_BIT {
            self.bits - SIGN_BIT
        } else {
            self.bits
        }
    }

    /// Whether the double is at least `n`. What is not a number is not.
    pub fn at_least(self, n: u32) -> (r: bool)
        ensures
            r == (self.is_number() && self.value() >= n * one()),
    {
        proof {
            lemma_halves(n as int);
            lemma_counted_not_negative(self.magnitude());
            lemma_pow2_pos(1074);
            assert(n * one() >= 0) by (nonlinear_arith)
                requires
                    n >= 0,
                    one() > 0,
            ;
            assert(0 * one() == 0);
            assert(n > 0 ==> n * one() > 0) by (nonlinear_arith)
                requires
                    one() > 0,
            ;
            lemma_counted_zero(self.magnitude());
        }
        let magnitude = self.magnitude_bits();
        if magnitude > INFINITY_BITS {
            return false;
        }
        if self.bits >= SIGN_BIT {
            return n == 0 && magnitude == 0;
        }
        let side = compare_halves(magnitude, 2 * (n as u64));
        !matches!(side, Side::Below)
    }

    /// Whether the double is above `n`. What is not a number is not.
    pub fn above(self, n: u32) -> (r: bool)
        ensures
            r == (self.is_number() && self.value() > n * one()),
    {
        proof {
            lemma_halves(n as int);
            lemma_counted_not_negative(self.magnitude());
            lemma_pow2_pos(1074);
            assert(n * one() >= 0) by (nonlinear_arith)
                requires
                    n >= 0,
                    one() > 0,
            ;
        }
        let magnitude = self.magnitude_bits();
        if magnitude > INFINITY_BITS || self.bits >= SIGN_BIT {
            return false;
        }
        let side = compare_halves(magnitude, 2 * (n as u64));
        matches!(side, Side::Above)
    }

    /// Whether the double is below minus `n`. What is not a number is not.
    pub fn below_minus(self, n: u32) -> (r: bool)
        ensures
            r == (self.is_number() && self.value() < -(n * one())),
    {
        proof {
            lemma_halves(n as int);
            lemma_counted_not_negative(self.magnitude());
            lemma_pow2_pos(1074);
            assert(n * one() >= 0) by (nonlinear_arith)
                requires
                    n >= 0,
                    one() > 0,
            ;
        }
        let magnitude = self.magnitude_bits();
        if magnitude > INFINITY_BITS || self.bits < SIGN_BIT {
            return false;
        }
        let side = compare_halves(magnitude, 2 * (n as u64));
        matches!(side, Side::Above)
    }

    /// Whether the double lies strictly between minus one half and one half.
    pub fn within_half(self) -> (r: bool)
        ensures
            r == (self.is_number() && self.absolute() < half()),
    {
        let magnitude = self.magnitude_bits();
        if magnitude > INFINITY_BITS {
            return false;
        }
        let side = compare_halves(magnitude, 1);
        matches!(side, Side::Below)
    }

    /// The double cut towards zero to a whole number and to the range of `i64`. What is not a
    /// number becomes zero.
    pub fn truncate(self) -> (r: i64)
        ensures
            r == self.truncated(),
    {
        let magnitude = self.magnitude_bits();
        if magnitude > INFINITY_BITS {
            return 0;
        }
        let whole = whole_part(magnitude);
        if self.bits >= SIGN_BIT {
            if whole >= SIGN_BIT {
                i64::MIN
            } else {
                -(whole as i64)
            }
        } else if whole >= SIGN_BIT {
            i64::MAX
        } else {
            whole as i64
        }
    }
}

proof fn lemma_halves(n: int)
    ensures
        (2 * n) * half() == n * one(),
{
    lemma_pow2_unfold(1074);
    assert((2 * n) * half() == n * (2 * half())) by (nonlinear_arith);
}

proof fn lemma_counted_not_negative(magnitude: u64)
    ensures
        counted(magnitude) >= 0,
{
    lemma_pow2_pos(doublings(magnitude));
    assert(counted(magnitude) >= 0) by (nonlinear_arith)
        requires
            counted(magnitude) == significand(magnitude) * pow2(doublings(magnitude)),
            significand(magnitude) >= 0,
            pow2(doublings(magnitude)) > 0,
    ;
}

proof fn lemma_counted_zero(magnitude: u64)
    ensures
        counted(magnitude) == 0 <==> magnitude == 0,
{
    lemma_pow2_pos(doublings(magnitude));
    assert(counted(magnitude) == 0 <==> significand(magnitude) == 0) by (nonlinear_arith)
        requires
            counted(magnitude) == significand(magnitude) * pow2(doublings(magnitude)),
            significand(magnitude) >= 0,
            pow2(doublings(magnitude)) > 0,
    ;
}

/// The significand of a magnitude and how often it is doubled.
fn parts(magnitude: u64) -> (p: (u64, u64))
    requires
        magnitude < SIGN_BIT,
    ensures
        p.0 == significand(magnitude),
        p.1 == doublings(magnitude),
        p.0 < 2 * EXPONENT_UNIT,
        p.1 <= 2046,
        p.1 > 0 ==> p.0 >= EXPONENT_UNIT,
{
    if magnitude < EXPONENT_UNIT {
        (magnitude, 0)
    } else {
        (EXPONENT_UNIT + magnitude % EXPONENT_UNIT, magnitude / EXPONENT_UNIT - 1)
    }
}

/// Where a magnitude stands relative to `h` halves.
fn compare_halves(magnitude: u64, h: u64) -> (side: Side)
    requires
        magnitude < SIGN_BIT,
        h < EXPONENT_UNIT,
    ensures
        side is Below <==> counted(magnitude) < h * half(),
        side is Equal <==> counted(magnitude) == h * half(),
        side is Above <==> counted(magnitude) > h * half(),
{
    let (m, e) = parts(magnitude);
    let ghost me = pow2(e as nat) as int;
    proof {
        lemma_pow2_pos(e as nat);
        lemma_pow2_pos(1073);
    }
    if e >= 1073 {
        proof {
            if e > 1073 {
                lemma_pow2_strictly_increases(1073, e as nat);
            }
            assert(m * me > h * half()) by (nonlinear_arith)
                requires
                    m > h,
                    h >= 0,
                    me >= half(),
                    half() > 0,
            ;
        }
        return Side::Above;
    }
    let k: u64 = 1073 - e;
    proof {
        lemma_pow2_adds(e as nat, k as nat);
        lemma_pow2_pos(k as nat);
        assert(h * half() == (h * pow2(k as nat)) * me) by (nonlinear_arith)
            requires
                half() == me * pow2(k as nat),
        ;
    }
    if k >= 53 {
        proof {
            lemma2_to64_rest();
            if k > 53 {
                lemma_pow2_strictly_increases(53, k as nat);
            }
            lemma_order(m as int, h * pow2(k as nat), me);
            if h >= 1 {
                assert(h * pow2(k as nat) > m) by (nonlinear_arith)
                    requires
                        h >= 1,
                        pow2(k as nat) > m,
                ;
            }
        }
        if h == 0 {
            return if m == 0 {
                Side::Equal
            } else {
                Side::Above
            };
        }
        return Side::Below;
    }
    proof {
        lemma_u64_pow2_no_overflow(k as nat);
        lemma_u64_shl_is_mul(1, k);
    }
    let p: u64 = 1u64 << k;
    let q: u64 = m / p;
    let r: u64 = m % p;
    proof {
        lemma_order(m as int, h * p, me);
        assert(m == q * p + r) by (nonlinear_arith)
            requires
                q == m / p,
                r == m % p,
                p > 0,
        ;
        assert(q < h ==> m < h * p) by (nonlinear_arith)
            requires
                m == q * p + r,
                r < p,
                q >= 0,
        ;
        assert(q > h ==> m > h * p) by (nonlinear_arith)
            requires
                m == q * p + r,
                r >= 0,
                p > 0,
        ;
    }
    if q < h {
        Side::Below
    } else if q > h {
        Side::Above
    } else if r == 0 {
        Side::Equal
    } else {
        Side::Above
    }
}

proof fn lemma_order(a: int, b: int, scale: int)
    requires
        scale > 0,
    ensures
        a < b <==> a * scale < b * scale,
        a == b <==> a * scale == b * scale,
        a > b <==> a * scale > b * scale,
{
    if a < b {
        assert(a * scale < b * scale) by (nonlinear_arith)
            requires
                a < b,
                scale > 0,
        ;
    } else if a > b {
        assert(a * scale > b * scale) by (nonlinear_arith)
            requires
                a > b,
                scale > 0,
        ;
    }
}

/// The whole part of a magnitude, cut to two to the power 63.
fn whole_part(magnitude: u64) -> (w: u64)
    requires
        magnitude < SIGN_BIT,
    ensures
        w == (if counted(magnitude) / one() >= SIGN_BIT {
            SIGN_BIT as int
        } else {
            counted(magnitude) / one()
        }),
{
    let (m, e) = parts(magnitude);
    let ghost me = pow2(e as nat) as int;
    proof {
        lemma_pow2_pos(e as nat);
        lemma_pow2_pos(1074);
        lemma2_to64();
        lemma2_to64_rest();
    }
    if e >= 1074 {
        let k: u64 = e - 1074;
        proof {
            lemma_pow2_adds(1074, k as nat);
            lemma_pow2_pos(k as nat);
            assert(m * me == (m * pow2(k as nat)) * one()) by (nonlinear_arith)
                requires
                    me == one() * pow2(k as nat),
            ;
            vstd::arithmetic::div_mod::lemma_div_by_multiple(m * pow2(k as nat), one());
        }
        if k >= 11 {
            proof {
                if k > 11 {
                    lemma_pow2_strictly_increases(11, k as nat);
                }
                assert(m * pow2(k as nat) >= EXPONENT_UNIT * 2048) by (nonlinear_arith)
                    requires
                        m >= EXPONENT_UNIT,
                        pow2(k as nat) >= 2048,
                ;
            }
            return SIGN_BIT;
        }
        proof {
            lemma_u64_pow2_no_overflow(k as nat);
            if k < 10 {
                lemma_pow2_strictly_increases(k as nat, 10);
            }
            assert(m * pow2(k as nat) < 2 * EXPONENT_UNIT * 1024) by (nonlinear_arith)
                requires
                    0 <= m < 2 * EXPONENT_UNIT,
                    0 < pow2(k as nat) <= 1024,
            ;
            lemma_u64_shl_is_mul(m, k);
        }
        return m << k;
    }
    let k: u64 = 1074 - e;
    proof {
        lemma_pow2_adds(e as nat, k as nat);
        lemma_pow2_pos(k as nat);
        assert(m * me == me * m) by (nonlinear_arith);
        assert(one() == me * pow2(k as nat));
        vstd::arithmetic::div_mod::lemma_div_denominator(me * m, me, pow2(k as nat) as int);
        vstd::arithmetic::div_mod::lemma_div_by_multiple(m as int, me);
        assert((me * m) / me == m);
        assert(counted(magnitude) / one() == m as int / pow2(k as nat) as int);
    }
    if k >= 53 {
        proof {
            if k > 53 {
                lemma_pow2_strictly_increases(53, k as nat);
            }
            vstd::arithmetic::div_mod::lemma_basic_div(m as int, pow2(k as nat) as int);
        }
        return 0;
    }
    proof {
        lemma_u64_shr_is_div(m, k);
        vstd::arithmetic::div_mod::lemma_div_nonincreasing(m as int, pow2(k as nat) as int);
    }
    m >> k
}

/// The count of a magnitude follows from three facts: the smallest magnitudes count as themselves,
/// one more in the exponent counts twice as much, and the pattern of one counts as one.
pub proof fn law_magnitudes_count_as_doubles_do(magnitude: u64)
    ensures
        magnitude < 0x20_0000_0000_0000 ==> counted(magnitude) == magnitude,
        0x10_0000_0000_0000 <= magnitude < 0x7FE0_0000_0000_0000 ==> counted(
            (magnitude + 0x10_0000_0000_0000) as u64,
        ) == 2 * counted(magnitude),
        counted(0x3FF0_0000_0000_0000) == one(),
        2 * half() == one(),
{
    lemma2_to64();
    lemma2_to64_rest();
    lemma_pow2_unfold(1074);
    lemma_pow2_adds(52, 1022);
    assert(counted(0x3FF0_0000_0000_0000) == EXPONENT_UNIT * pow2(1022));
    if 0x10_0000_0000_0000 <= magnitude < 0x7FE0_0000_0000_0000 {
        let next = (magnitude + 0x10_0000_0000_0000) as u64;
        let e = doublings(magnitude);
        lemma_pow2_unfold(e + 1);
        assert(doublings(next) == e + 1);
        assert(significand(next) == significand(magnitude));
        assert(significand(magnitude) * (2 * pow2(e)) == 2 * (significand(magnitude) * pow2(e)))
            by (nonlinear_arith);
    }
    if magnitude < 0x20_0000_0000_0000 {
        assert(doublings(magnitude) == 0);
        assert(significand(magnitude) == magnitude);
    }
}

/// The sign bit turns a double into its negative and changes nothing else: not whether it is a
/// number, and not how far from zero it lies.
pub proof fn law_the_sign_bit_negates(d: Double)
    requires
        d.bits < 0x8000_0000_0000_0000,
    ensures
        ({
            let negated = Double { bits: (d.bits + 0x8000_0000_0000_0000) as u64 };
            &&& negated.value() == -d.value()
            &&& negated.absolute() == d.absolute()
            &&& d.absolute() == d.value()
            &&& d.value() == counted(d.bits)
            &&& negated.is_number() == d.is_number()
            &&& d.is_number() <==> d.bits <= 0x7FF0_0000_0000_0000
        }),
{
}

/// A double is cut towards zero: what is cut off is less than one. What lies beyond the whole
/// numbers of 64 bits is cut to the nearest of them, and what is not a number to zero.
pub proof fn law_doubles_are_cut_towards_zero(d: Double)
    ensures
        !d.is_number() ==> d.truncated() == 0,
        d.is_number() && 0 <= d.value() < (i64::MAX + 1) * one() ==> d.truncated() * one()
            <= d.value() < (d.truncated() + 1) * one(),
        d.is_number() && (i64::MIN - 1) * one() < d.value() <= 0 ==> (d.truncated() - 1) * one()
            < d.value() <= d.truncated() * one(),
        d.is_number() && d.value() >= (i64::MAX + 1) * one() ==> d.truncated() == i64::MAX,
        d.is_number() && d.value() <= (i64::MIN - 1) * one() ==> d.truncated() == i64::MIN,
{
    lemma_pow2_pos(1074);
    lemma_counted_not_negative(d.magnitude());
    let u = one();
    let a = d.absolute();
    let q = a / u;
    let r = a % u;
    vstd::arithmetic::div_mod::lemma_fundamental_div_mod(a, u);
    vstd::arithmetic::div_mod::lemma_mod_bound(a, u);
    assert(q >= 0 && q * u <= a < (q + 1) * u) by (nonlinear_arith)
        requires
            a == u * q + r,
            0 <= r < u,
            a >= 0,
            u > 0,
    ;
    let top = i64::MAX + 1;
    assert(a < top * u ==> q < top) by (nonlinear_arith)
        requires
            q * u <= a,
            u > 0,
    ;
    assert(a >= top * u ==> q >= top) by (nonlinear_arith)
        requires
            a < (q + 1) * u,
            u > 0,
    ;
    assert(a < (top + 1) * u ==> q <= top) by (nonlinear_arith)
        requires
            q * u <= a,
            u > 0,
    ;
    assert(a >= (top + 1) * u ==> q > top) by (nonlinear_arith)
        requires
            a < (q + 1) * u,
            u > 0,
    ;
    assert((-q) * u == -(q * u)) by (nonlinear_arith);
    assert((-q - 1) * u == -((q + 1) * u)) by (nonlinear_arith);
    assert((i64::MIN - 1) * u == -((top + 1) * u)) by (nonlinear_arith)
        requires
            top == i64::MAX + 1,
    ;
    assert(1 * u == u);
    assert(top * u > 0) by (nonlinear_arith)
        requires
            top > 0,
            u > 0,
    ;
}

} // verus!
