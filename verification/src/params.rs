//! Construction parameters for the filter and the sizing arithmetic that
//! derives a bit count and a hash-function count from them.
//!
//! The classical sizing formulas involve the constant ln 2. To keep the
//! arithmetic exact and verifiable, ln 2 and 1 / ln 2 are carried as 64-bit
//! fixed-point constants (a value x is represented by the integer
//! floor(x * 2^64)), and every ceiling is computed on integers.

use vstd::prelude::*;

verus! {

/// Sizing directive for constructing a [`crate::BloomFilter`].
///
/// A caller either fixes the number of simulated hash functions and lets the
/// filter derive the bit count for the optimal-fill assumption (about half
/// the bits set, a false-positive rate of 2^-k), or hands the filter a
/// pre-derived minimum bit count and lets it derive the optimal
/// hash-function count for the expected item count.
#[derive(Clone, Copy, Debug, PartialEq, Eq, Structural)]
pub enum FilterParams {
    /// Use exactly this many simulated hash functions.
    HashCount(u32),
    /// Use at least this many bits of storage.
    RequiredBits(u64),
}

/// The one construction error: the expected item count is zero, or the
/// sizing directive itself is degenerate (zero hash functions or zero bits).
#[derive(Clone, Copy, Debug, PartialEq, Eq, Structural)]
pub enum FilterError {
    InvalidConstructionParameter,
}

/// ln 2 in 64-bit fixed point: floor(ln 2 * 2^64).
pub const LN2_Q64: u128 = 12786308645202655659;

/// 1 / ln 2 in 64-bit fixed point: floor(2^64 / ln 2).
pub const INV_LN2_Q64: u128 = 26613026195688644983;

/// The fixed-point scale, 2^64.
pub const Q64_ONE: u128 = 0x1_0000_0000_0000_0000;

/// Ceiling of `a / b` for a positive divisor.
pub open spec fn ceil_div(a: int, b: int) -> int
    recommends
        b > 0,
{
    if a % b == 0 {
        a / b
    } else {
        a / b + 1
    }
}

/// Whether a construction request is rejected: zero expected items, zero
/// hash functions, or zero bits of storage.
pub open spec fn spec_params_invalid(expected_items: u64, params: FilterParams) -> bool {
    ||| expected_items == 0
    ||| (params matches FilterParams::HashCount(k) && k == 0)
    ||| (params matches FilterParams::RequiredBits(m) && m == 0)
}

/// Machine-size bound on a construction request: the derived bit count must
/// fit in a `u64` even after rounding up to a word boundary, and the backing
/// word array must be addressable (its byte size must fit in `usize`). For a
/// fixed hash count the derived bit count is about 1.45 * k * n, so the
/// product k * n is capped at 2^62.
pub open spec fn spec_params_in_range(expected_items: u64, params: FilterParams) -> bool {
    &&& (params matches FilterParams::HashCount(k) ==> k as int * expected_items as int
        <= 0x4000_0000_0000_0000)
    &&& (params matches FilterParams::RequiredBits(m) ==> m <= u64::MAX - 63)
    &&& spec_required_bits(expected_items, params) + 63 <= usize::MAX as int * 8
}

/// The minimum bit count m that a sizing directive asks for, before rounding
/// up to a word boundary. For a fixed hash count k this is the classical
/// m = ceil(k * n / ln 2), evaluated in fixed point; a pre-derived bit count
/// is taken as given.
pub open spec fn spec_required_bits(expected_items: u64, params: FilterParams) -> int {
    match params {
        FilterParams::HashCount(k) => (k as int * expected_items as int * INV_LN2_Q64 as int)
            / Q64_ONE as int + 1,
        FilterParams::RequiredBits(m) => m as int,
    }
}

/// The hash-function count k that a sizing directive asks for. A fixed count
/// is taken as given; for a pre-derived bit count m this is the classical
/// optimum k = ceil((m / n) * ln 2), evaluated in fixed point and saturated
/// at `u32::MAX`.
pub open spec fn spec_hash_count(expected_items: u64, params: FilterParams) -> int {
    match params {
        FilterParams::HashCount(k) => k as int,
        FilterParams::RequiredBits(m) => {
            let k = ceil_div(m as int * LN2_Q64 as int, expected_items as int * Q64_ONE as int);
            if k > u32::MAX as int {
                u32::MAX as int
            } else {
                k
            }
        },
    }
}

/// Derives the minimum (pre-rounding) bit count for a valid request.
pub(crate) fn derive_required_bits(expected_items: u64, params: FilterParams) -> (m: u64)
    requires
        !spec_params_invalid(expected_items, params),
        spec_params_in_range(expected_items, params),
    ensures
        m as int == spec_required_bits(expected_items, params),
        1 <= m <= u64::MAX - 63,
{
    match params {
        FilterParams::HashCount(k) => {
            let a: u128 = (k as u128) * (expected_items as u128);
            proof {
                vstd::arithmetic::mul::lemma_mul_inequality(
                    a as int,
                    0x4000_0000_0000_0000,
                    INV_LN2_Q64 as int,
                );
            }
            let scaled: u128 = a * INV_LN2_Q64;
            proof {
                vstd::arithmetic::div_mod::lemma_div_is_ordered(
                    scaled as int,
                    0x4000_0000_0000_0000 * INV_LN2_Q64 as int,
                    Q64_ONE as int,
                );
                vstd::arithmetic::div_mod::lemma_div_pos_is_pos(scaled as int, Q64_ONE as int);
            }
            let m128: u128 = scaled / Q64_ONE + 1;
            m128 as u64
        },
        FilterParams::RequiredBits(m) => m,
    }
}

/// Derives the hash-function count for a valid request.
pub(crate) fn derive_hash_count(expected_items: u64, params: FilterParams) -> (k: u32)
    requires
        !spec_params_invalid(expected_items, params),
    ensures
        k as int == spec_hash_count(expected_items, params),
        k >= 1,
{
    match params {
        FilterParams::HashCount(k) => k,
        FilterParams::RequiredBits(m) => {
            proof {
                vstd::arithmetic::mul::lemma_mul_inequality(
                    m as int,
                    u64::MAX as int,
                    LN2_Q64 as int,
                );
                vstd::arithmetic::mul::lemma_mul_inequality(1, m as int, LN2_Q64 as int);
                vstd::arithmetic::mul::lemma_mul_inequality(
                    expected_items as int,
                    u64::MAX as int,
                    Q64_ONE as int,
                );
                vstd::arithmetic::mul::lemma_mul_inequality(
                    1,
                    expected_items as int,
                    Q64_ONE as int,
                );
            }
            let num: u128 = (m as u128) * LN2_Q64;
            let den: u128 = (expected_items as u128) * Q64_ONE;
            let q: u128 = num / den;
            let r: u128 = num % den;
            proof {
                vstd::arithmetic::div_mod::lemma_fundamental_div_mod(num as int, den as int);
                vstd::arithmetic::div_mod::lemma_div_is_ordered_by_denominator(
                    num as int,
                    Q64_ONE as int,
                    den as int,
                );
                vstd::arithmetic::div_mod::lemma_div_is_ordered(
                    num as int,
                    u64::MAX as int * LN2_Q64 as int,
                    Q64_ONE as int,
                );
            }
            let k128: u128 = if r == 0 {
                q
            } else {
                q + 1
            };
            proof {
                assert(num > 0);
                assert(num == den * q + r);
                if q == 0 {
                    assert(den * q == den * 0);
                    assert(den * 0 == 0);
                }
                assert(k128 >= 1);
            }
            if k128 > u32::MAX as u128 {
                u32::MAX
            } else {
                k128 as u32
            }
        },
    }
}

} // verus!
