//! Scan times: from the doubles that the filter reports, in seconds, to whole
//! microseconds, and their mean.

use vstd::prelude::*;
use vstd::arithmetic::div_mod::{lemma_fundamental_div_mod, lemma_fundamental_div_mod_converse};
use vstd::arithmetic::mul::lemma_mul_is_commutative;
use vstd::arithmetic::power2::{
    lemma2_to64, lemma2_to64_rest, lemma_pow2_adds, lemma_pow2_pos, lemma_pow2_strictly_increases,
    lemma_pow2_unfold, pow2,
};

verus! {

/// Microseconds in a second.
pub const MICROS_PER_SECOND: u64 = 1_000_000;

/// The field of eleven bits that holds a double's exponent.
pub open spec fn exponent_field(bits: u64) -> int {
    (bits as int / 0x10_0000_0000_0000) % 0x800
}

/// The significand of a finite double: the 52 bits of its fraction, and the
/// implicit leading one unless the exponent field is zero.
pub open spec fn significand(bits: u64) -> int {
    let fraction = bits as int % 0x10_0000_0000_0000;
    if exponent_field(bits) == 0 {
        fraction
    } else {
        fraction + 0x10_0000_0000_0000
    }
}

/// Whether the sign bit of a double is set.
pub open spec fn sign_bit(bits: u64) -> bool {
    bits >= 0x8000_0000_0000_0000
}

/// How many binary places a finite double's significand has after the point:
/// its value is `significand / 2^places`, or `significand * 2^-places` where
/// this is negative.
pub open spec fn binary_places(bits: u64) -> int {
    if exponent_field(bits) == 0 {
        1074
    } else {
        1075 - exponent_field(bits)
    }
}

/// The absolute value of a finite double, in microseconds, rounded to the
/// nearest whole one, a half upwards.
pub open spec fn magnitude_micros(bits: u64) -> int {
    let scaled = significand(bits) * 1_000_000;
    let places = binary_places(bits);
    if places <= 0 {
        scaled * pow2((-places) as nat)
    } else {
        (scaled + pow2((places - 1) as nat)) / (pow2(places as nat) as int)
    }
}

/// The whole microseconds that a double of seconds stands for, given by its
/// bit pattern. None for an infinity, for what is not a number, and for a
/// value whose microseconds do not fit in 64 bits with a sign.
pub open spec fn micros_of_bits(bits: u64) -> Option<i64> {
    if exponent_field(bits) == 0x7ff || magnitude_micros(bits) > i64::MAX {
        None
    } else if sign_bit(bits) {
        Some((-magnitude_micros(bits)) as i64)
    } else {
        Some(magnitude_micros(bits) as i64)
    }
}

/// Two to the power `n`.
fn power_of_two(n: u32) -> (p: u128)
    requires
        n <= 100,
    ensures
        p == pow2(n as nat),
        p <= 0x10_0000_0000_0000_0000_0000_0000u128,
{
    let mut p: u128 = 1;
    let mut i: u32 = 0;
    proof {
        lemma2_to64();
    }
    while i < n
        invariant
            i <= n <= 100,
            p == pow2(i as nat),
            p <= 0x10_0000_0000_0000_0000_0000_0000u128,
        decreases n - i,
    {
        proof {
            lemma_pow2_unfold((i + 1) as nat);
            lemma_pow2_bound(i as nat);
            lemma_pow2_bound((i + 1) as nat);
        }
        p = p * 2;
        i = i + 1;
    }
    p
}

/// Up to the hundredth, a power of two stays within 101 bits.
proof fn lemma_pow2_bound(n: nat)
    requires
        n <= 100,
    ensures
        pow2(n) <= 0x10_0000_0000_0000_0000_0000_0000,
        n < 100 ==> 2 * pow2(n) <= 0x10_0000_0000_0000_0000_0000_0000,
{
    lemma2_to64();
    lemma2_to64_rest();
    lemma_pow2_adds(64, 36);
    assert(pow2(100) == 0x10_0000_0000_0000_0000_0000_0000) by {
        assert(pow2(64) == 0x1_0000_0000_0000_0000);
        assert(pow2(36) == 0x10_0000_0000);
        assert(0x1_0000_0000_0000_0000 * 0x10_0000_0000 == 0x10_0000_0000_0000_0000_0000_0000int);
    }
    if n < 100 {
        lemma_pow2_strictly_increases(n, 100);
        lemma_pow2_unfold(n + 1);
        if n + 1 < 100 {
            lemma_pow2_strictly_increases(n + 1, 100);
        }
    }
}

/// Reads the bit pattern of a double of seconds as whole microseconds.
pub fn micros_from_bits(bits: u64) -> (r: Option<i64>)
    ensures
        r == micros_of_bits(bits),
{
    let exponent: u64 = (bits / 0x10_0000_0000_0000) % 0x800;
    let fraction: u64 = bits % 0x10_0000_0000_0000;
    let negative = bits >= 0x8000_0000_0000_0000;
    if exponent == 0x7ff {
        return None;
    }
    let mantissa: u64 = if exponent == 0 {
        fraction
    } else {
        fraction + 0x10_0000_0000_0000
    };
    let scaled: u128 = (mantissa as u128) * 1_000_000;
    if exponent >= 1075 {
        proof {
            lemma_pow2_pos((exponent - 1075) as nat);
            assert(magnitude_micros(bits) >= scaled) by (nonlinear_arith)
                requires
                    magnitude_micros(bits) == scaled * pow2((exponent - 1075) as nat),
                    pow2((exponent - 1075) as nat) > 0,
                    scaled >= 0,
            ;
        }
        return None;
    }
    let places: u64 = if exponent == 0 {
        1074
    } else {
        1075 - exponent
    };
    if places > 75 {
        proof {
            lemma_small_double_rounds_to_zero(scaled as int, places as nat);
        }
        return Some(0);
    }
    let half: u128 = power_of_two((places - 1) as u32);
    let whole: u128 = power_of_two(places as u32);
    proof {
        lemma_pow2_pos(places as nat);
    }
    let magnitude: u128 = (scaled + half) / whole;
    if magnitude > 0x7fff_ffff_ffff_ffff {
        return None;
    }
    if negative {
        Some(-(magnitude as i64))
    } else {
        Some(magnitude as i64)
    }
}

/// A number below two to the 73rd, divided by two to a power above the 75th
/// and rounded, is zero.
proof fn lemma_small_double_rounds_to_zero(scaled: int, places: nat)
    requires
        0 <= scaled < 0x200_0000_0000_0000_0000,
        places > 75,
    ensures
        (scaled + pow2((places - 1) as nat)) / (pow2(places) as int) == 0,
{
    lemma2_to64();
    lemma2_to64_rest();
    lemma_pow2_adds(64, 11);
    assert(pow2(75) == 0x800_0000_0000_0000_0000) by {
        assert(0x1_0000_0000_0000_0000 * 0x800 == 0x800_0000_0000_0000_0000int);
    }
    if places - 1 > 75 {
        lemma_pow2_strictly_increases(75, (places - 1) as nat);
    }
    lemma_pow2_unfold(places);
    let half = pow2((places - 1) as nat) as int;
    assert(pow2(places) == 2 * half);
    assert(scaled < half);
    assert((scaled + half) / (2 * half) == 0) by (nonlinear_arith)
        requires
            0 <= scaled < half,
    ;
}

/// The microseconds of one entry of the filter's list of scan times, given
/// as the bit pattern of its double, or as nothing where the entry is no
/// number.
pub open spec fn sample_micros(entry: Option<u64>) -> Option<i64> {
    match entry {
        Some(bits) => micros_of_bits(bits),
        None => None,
    }
}

/// The entries that count as samples, in microseconds and in their order:
/// those that are finite numbers within range.
pub open spec fn samples(entries: Seq<Option<u64>>) -> Seq<i64>
    decreases entries.len(),
{
    if entries.len() == 0 {
        Seq::empty()
    } else {
        match sample_micros(entries.last()) {
            Some(micros) => samples(entries.drop_last()).push(micros),
            None => samples(entries.drop_last()),
        }
    }
}

/// The sum of a sequence of samples.
pub open spec fn total(values: Seq<i64>) -> int
    decreases values.len(),
{
    if values.len() == 0 {
        0
    } else {
        total(values.drop_last()) + values.last()
    }
}

/// The arithmetic mean of the samples, rounded down to a whole number, or
/// nothing where there is no sample.
pub open spec fn mean(values: Seq<i64>) -> Option<i128> {
    if values.len() == 0 {
        None
    } else {
        Some((total(values) / (values.len() as int)) as i128)
    }
}

/// The quotient of a number by a positive one, rounded down.
fn floor_div(x: i128, n: usize) -> (q: i128)
    requires
        n > 0,
    ensures
        q == x as int / n as int,
{
    if x >= 0 {
        ((x as u128) / (n as u128)) as i128
    } else {
        let below: u128 = (-(x + 1)) as u128;
        let k: u128 = below / (n as u128);
        let q: i128 = -(k as i128) - 1;
        proof {
            let rest = below as int % n as int;
            assert(below == k * n + rest) by {
                lemma_fundamental_div_mod(below as int, n as int);
                lemma_mul_is_commutative(k as int, n as int);
            }
            assert(x as int == q * n + (n - rest - 1)) by (nonlinear_arith)
                requires
                    below == k * n + rest,
                    below == -(x + 1),
                    q == -k - 1,
            ;
            lemma_fundamental_div_mod_converse(
                x as int,
                n as int,
                q as int,
                n - rest - 1,
            );
        }
        q
    }
}

/// The sum of samples stays within as many times 64 bits as there are
/// samples.
proof fn lemma_total_bounds(values: Seq<i64>)
    ensures
        -0x8000_0000_0000_0000 * values.len() <= total(values) <= 0x8000_0000_0000_0000
            * values.len(),
    decreases values.len(),
{
    if values.len() > 0 {
        lemma_total_bounds(values.drop_last());
    }
}

/// The mean of the scan times among the entries of one report, in whole
/// microseconds: entries that are no finite number within range are passed
/// over, and there is no mean where none is left.
pub fn average_micros(entries: &Vec<Option<u64>>) -> (m: Option<i128>)
    ensures
        m == mean(samples(entries@)),
{
    let mut sum: i128 = 0;
    let mut count: usize = 0;
    let mut i: usize = 0;
    while i < entries.len()
        invariant
            i <= entries.len(),
            count == samples(entries@.subrange(0, i as int)).len(),
            count <= i,
            sum == total(samples(entries@.subrange(0, i as int))),
        decreases entries.len() - i,
    {
        let reading = match entries[i] {
            Some(bits) => micros_from_bits(bits),
            None => None,
        };
        proof {
            let next = entries@.subrange(0, i + 1);
            assert(next.drop_last() =~= entries@.subrange(0, i as int));
            assert(next.last() == entries@[i as int]);
            let kept = samples(entries@.subrange(0, i as int));
            lemma_total_bounds(kept);
            if let Some(micros) = reading {
                assert(kept.push(micros).drop_last() =~= kept);
            }
        }
        if let Some(micros) = reading {
            sum = sum + micros as i128;
            count = count + 1;
        }
        i = i + 1;
    }
    proof {
        assert(entries@.subrange(0, i as int) =~= entries@);
    }
    if count == 0 {
        None
    } else {
        proof {
            lemma_mean_fits(samples(entries@));
        }
        Some(floor_div(sum, count))
    }
}

/// The mean of samples lies between the least and the greatest 64-bit
/// number.
proof fn lemma_mean_fits(values: Seq<i64>)
    requires
        values.len() > 0,
    ensures
        -0x8000_0000_0000_0000 <= total(values) / (values.len() as int) <= 0x8000_0000_0000_0000,
{
    lemma_total_bounds(values);
    let n = values.len() as int;
    let t = total(values);
    assert(-0x8000_0000_0000_0000 <= t / n <= 0x8000_0000_0000_0000) by (nonlinear_arith)
        requires
            n > 0,
            -0x8000_0000_0000_0000 * n <= t <= 0x8000_0000_0000_0000 * n,
    ;
}

} // verus!
