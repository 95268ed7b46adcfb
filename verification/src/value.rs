//! The values that counters hand out.

use vstd::prelude::*;

verus! {

/// The exact ratio of an integer to a divisor, kept as sign and magnitude.
///
/// A ratio is stored as it was formed and never reduced, so two ratios are
/// equal when their parts are.
#[derive(Clone, Copy, Debug, PartialEq, Eq, Structural)]
pub struct Ratio {
    /// Whether the numerator is below zero.
    pub negative: bool,
    /// The absolute value of the numerator.
    pub magnitude: u128,
    /// The divisor.
    pub divisor: usize,
}

/// How far `high` lies above `low`.
fn distance(low: i128, high: i128) -> (d: u128)
    requires
        low <= high,
    ensures
        d == high - low,
{
    if low >= 0 || high < 0 {
        (high - low) as u128
    } else {
        let below: u128 = (-(low + 1)) as u128;
        (high as u128) + below + 1
    }
}

/// The product of a 128-bit and a 64-bit number, as the part above the low
/// 64 bits and the low 64 bits.
fn wide_product(a: u128, b: usize) -> (p: (u128, u64))
    ensures
        p.0 * 0x1_0000_0000_0000_0000 + p.1 == a * b,
{
    let high: u128 = a / 0x1_0000_0000_0000_0000;
    let low: u128 = a % 0x1_0000_0000_0000_0000;
    let factor: u128 = b as u128;
    assert(high * factor <= 0xffff_ffff_ffff_ffff * 0xffff_ffff_ffff_ffff) by (nonlinear_arith)
        requires
            0 <= high <= 0xffff_ffff_ffff_ffff,
            0 <= factor <= 0xffff_ffff_ffff_ffff,
    ;
    assert(low * factor <= 0xffff_ffff_ffff_ffff * 0xffff_ffff_ffff_ffff) by (nonlinear_arith)
        requires
            0 <= low <= 0xffff_ffff_ffff_ffff,
            0 <= factor <= 0xffff_ffff_ffff_ffff,
    ;
    let upper: u128 = high * factor;
    let lower: u128 = low * factor;
    assert(a * b == upper * 0x1_0000_0000_0000_0000 + lower) by (nonlinear_arith)
        requires
            a == high * 0x1_0000_0000_0000_0000 + low,
            upper == high * b,
            lower == low * b,
    ;
    (upper + lower / 0x1_0000_0000_0000_0000, (lower % 0x1_0000_0000_0000_0000) as u64)
}

/// Whether the first wide number is at most the second.
fn wide_le(x: (u128, u64), y: (u128, u64)) -> (le: bool)
    ensures
        le == (x.0 * 0x1_0000_0000_0000_0000 + x.1 <= y.0 * 0x1_0000_0000_0000_0000 + y.1),
{
    x.0 < y.0 || (x.0 == y.0 && x.1 <= y.1)
}

/// Whether the first ratio is at most the second: for positive divisors, the
/// order of the two quotients.
pub open spec fn ratio_le(a: Ratio, b: Ratio) -> bool {
    a.numerator() * b.divisor <= b.numerator() * a.divisor
}

/// The order of ratios with positive divisors is transitive.
pub proof fn lemma_ratio_le_transitive(a: Ratio, b: Ratio, c: Ratio)
    requires
        a.divisor > 0,
        b.divisor > 0,
        c.divisor > 0,
        ratio_le(a, b),
        ratio_le(b, c),
    ensures
        ratio_le(a, c),
{
    let (an, ad) = (a.numerator(), a.divisor as int);
    let (bn, bd) = (b.numerator(), b.divisor as int);
    let (cn, cd) = (c.numerator(), c.divisor as int);
    assert(an * bd * cd <= bn * ad * cd) by (nonlinear_arith)
        requires
            an * bd <= bn * ad,
            cd > 0,
    ;
    assert(bn * cd * ad <= cn * bd * ad) by (nonlinear_arith)
        requires
            bn * cd <= cn * bd,
            ad > 0,
    ;
    assert(an * cd <= cn * ad) by (nonlinear_arith)
        requires
            an * bd * cd <= bn * ad * cd,
            bn * cd * ad <= cn * bd * ad,
            bd > 0,
    ;
}

impl Ratio {
    /// The numerator with its sign.
    pub open spec fn numerator(self) -> int {
        if self.negative {
            -(self.magnitude as int)
        } else {
            self.magnitude as int
        }
    }

    /// The ratio `num / den`, for a numerator whose absolute value fits in
    /// 128 bits.
    pub open spec fn of(num: int, den: usize) -> Ratio {
        Ratio {
            negative: num < 0,
            magnitude: (if num < 0 { -num } else { num }) as u128,
            divisor: den,
        }
    }

    /// The ratio `(later - earlier) / divisor`.
    pub fn between(earlier: i128, later: i128, divisor: usize) -> (r: Ratio)
        ensures
            r == Ratio::of(later - earlier, divisor),
            r.numerator() == later - earlier,
            r.divisor == divisor,
    {
        if later >= earlier {
            Ratio { negative: false, magnitude: distance(earlier, later), divisor }
        } else {
            Ratio { negative: true, magnitude: distance(later, earlier), divisor }
        }
    }

    /// Whether this ratio is at most the other.
    pub fn le(&self, other: &Ratio) -> (le: bool)
        ensures
            le == ratio_le(*self, *other),
    {
        let mine = wide_product(self.magnitude, other.divisor);
        let theirs = wide_product(other.magnitude, self.divisor);
        proof {
            assert(self.numerator() * other.divisor == if self.negative {
                -(self.magnitude * other.divisor)
            } else {
                self.magnitude * other.divisor
            }) by (nonlinear_arith)
                requires
                    self.numerator() == if self.negative {
                        -(self.magnitude as int)
                    } else {
                        self.magnitude as int
                    },
            ;
            assert(other.numerator() * self.divisor == if other.negative {
                -(other.magnitude * self.divisor)
            } else {
                other.magnitude * self.divisor
            }) by (nonlinear_arith)
                requires
                    other.numerator() == if other.negative {
                        -(other.magnitude as int)
                    } else {
                        other.magnitude as int
                    },
            ;
        }
        if self.negative {
            if other.negative {
                wide_le(theirs, mine)
            } else {
                true
            }
        } else {
            if other.negative {
                mine.0 == 0 && mine.1 == 0 && theirs.0 == 0 && theirs.1 == 0
            } else {
                wide_le(mine, theirs)
            }
        }
    }

    /// The whole number `value`, as a ratio with divisor one.
    pub fn whole(value: i128) -> (r: Ratio)
        ensures
            r == Ratio::of(value as int, 1),
            r.numerator() == value,
            r.divisor == 1,
    {
        Ratio::between(0, value, 1)
    }
}

/// What one update of a counter yields.
#[derive(Clone, Copy, Debug, PartialEq, Eq, Structural)]
pub enum Reading {
    /// The counter has seen no earlier value to compare with.
    Unavailable,
    /// A derived value.
    Value(Ratio),
}

impl Reading {
    /// Whether this is the marker of a counter that has no value yet.
    pub fn is_unavailable(&self) -> (b: bool)
        ensures
            b == (*self is Unavailable),
    {
        match self {
            Reading::Unavailable => true,
            Reading::Value(_) => false,
        }
    }

    /// The derived value, if there is one.
    pub fn value(&self) -> (r: Option<Ratio>)
        ensures
            r == match *self {
                Reading::Unavailable => None::<Ratio>,
                Reading::Value(q) => Some(q),
            },
    {
        match self {
            Reading::Unavailable => None,
            Reading::Value(q) => Some(*q),
        }
    }
}

} // verus!
