//! The filter itself: construction and sizing, the double-hashed bit
//! addressing, and the insert / query / clear operations.

use std::collections::hash_map::DefaultHasher;
use std::hash::Hasher;
use vstd::prelude::*;

use crate::bits::lemma_and_mask;
use crate::bits::lemma_bit_position;
use crate::bits::lemma_or_mask;
use crate::bits::lemma_position_unique;
use crate::bits::lemma_zero_word;
use crate::bits::word_bit;
use crate::hashable::spec_h1;
use crate::hashable::spec_h2;
use crate::hashable::Hashable;
use crate::params::ceil_div;
use crate::params::derive_hash_count;
use crate::params::derive_required_bits;
use crate::params::spec_hash_count;
use crate::params::spec_params_in_range;
use crate::params::spec_params_invalid;
use crate::params::spec_required_bits;
use crate::params::FilterError;
use crate::params::FilterParams;

verus! {

/// The abstract state of a filter: the logical bit vector and the number of
/// simulated hash functions.
pub ghost struct FilterView {
    /// The logical bits, one per addressable bit of the backing words.
    pub bits: Seq<bool>,
    /// The number of simulated hash functions (k).
    pub hash_fn_count: u32,
}

/// The bit index that the `i`-th simulated hash function derives from the
/// two base digests, for a filter of `m` bits: `(h1 + h2 * i) mod 2^64`,
/// reduced modulo `m`. Deriving all k indices from two digests this way is
/// the standard double-hashing scheme.
pub open spec fn spec_bit_index(h1: u64, h2: u64, i: int, m: int) -> int
    recommends
        m > 0,
{
    ((h1 + h2 * i) % 0x1_0000_0000_0000_0000) % m
}

impl FilterView {
    /// Shape of any constructed filter: a positive, word-aligned bit count
    /// that fits the storage type, and at least one hash function.
    pub open spec fn wf(self) -> bool {
        &&& self.bits.len() > 0
        &&& self.bits.len() % 64 == 0
        &&& self.bits.len() <= u64::MAX
        &&& self.hash_fn_count >= 1
    }

    /// The bit index the `i`-th simulated hash function derives for an item
    /// with writes `w`.
    pub open spec fn index_of(self, w: Seq<Seq<u8>>, i: int) -> int {
        spec_bit_index(spec_h1(w), spec_h2(w), i, self.bits.len() as int)
    }

    /// Whether bit `j` is one of the bits an item with writes `w` maps to.
    pub open spec fn is_target(self, w: Seq<Seq<u8>>, j: int) -> bool {
        exists|i: int| 0 <= i < self.hash_fn_count && #[trigger] self.index_of(w, i) == j
    }

    /// Whether the filter answers "possibly present" for an item with
    /// writes `w`: every one of its k derived bits is set.
    pub open spec fn contains_item(self, w: Seq<Seq<u8>>) -> bool {
        forall|i: int|
            0 <= i < self.hash_fn_count ==> self.bits[#[trigger] self.index_of(w, i)]
    }

    /// Whether every bit of the filter is clear.
    pub open spec fn all_clear(self) -> bool {
        forall|j: int| 0 <= j < self.bits.len() ==> !self.bits[j]
    }
}

/// A space and time efficient Bloom filter.
///
/// The bit array is stored as a vector of `u64` words; an item is mapped to
/// k bit positions through double hashing, `insert` sets them and
/// `contains` tests them. Queries may return false positives, never false
/// negatives.
#[derive(Debug, Clone)]
pub struct BloomFilter {
    /// The bit array, stored as 64-bit words.
    bit_vec: Vec<u64>,
    /// The total number of addressable bits (m), a multiple of 64.
    bit_count: u64,
    /// The number of simulated hash functions (k).
    hash_fn_count: u32,
}

impl View for BloomFilter {
    type V = FilterView;

    closed spec fn view(&self) -> FilterView {
        FilterView {
            bits: Seq::new(
                self.bit_count as nat,
                |j: int| word_bit(self.bit_vec@[j / 64], (j % 64) as u64),
            ),
            hash_fn_count: self.hash_fn_count,
        }
    }
}

impl BloomFilter {
    /// Internal consistency: the words exactly cover the advertised bit
    /// count, the byte size of the array fits in `usize`, and the filter
    /// simulates at least one hash function.
    pub closed spec fn wf(self) -> bool {
        &&& self.bit_vec@.len() * 64 == self.bit_count
        &&& self.bit_vec@.len() * 8 <= usize::MAX
        &&& self.bit_count > 0
        &&& self.hash_fn_count >= 1
    }

    /// Creates a filter sized for `expected_items` under the given sizing
    /// directive, with every bit clear. The derived minimum bit count is
    /// rounded up to the next multiple of 64, and the rounded value is the
    /// one all later index arithmetic uses.
    pub fn new(expected_items: u64, params: FilterParams) -> (r: Result<BloomFilter, FilterError>)
        requires
            spec_params_in_range(expected_items, params),
        ensures
            r is Err <==> spec_params_invalid(expected_items, params),
            (r matches Err(e) ==> e == FilterError::InvalidConstructionParameter),
            (r matches Ok(f) ==> {
                &&& f.wf()
                &&& f@.wf()
                &&& f@.bits.len() == 64 * ceil_div(
                    spec_required_bits(expected_items, params),
                    64,
                )
                &&& f@.bits.len() >= spec_required_bits(expected_items, params)
                &&& f@.hash_fn_count == spec_hash_count(expected_items, params)
                &&& (params matches FilterParams::HashCount(k) ==> f@.hash_fn_count == k)
                &&& f@.all_clear()
            }),
    {
        if expected_items == 0 {
            return Err(FilterError::InvalidConstructionParameter);
        }
        let degenerate = match params {
            FilterParams::HashCount(k) => k == 0,
            FilterParams::RequiredBits(m) => m == 0,
        };
        if degenerate {
            return Err(FilterError::InvalidConstructionParameter);
        }
        let m_required = derive_required_bits(expected_items, params);
        let k = derive_hash_count(expected_items, params);
        let num_words_wide: u64 = (m_required + 63) / 64;
        proof {
            let m = m_required as int;
            vstd::arithmetic::div_mod::lemma_fundamental_div_mod(m, 64);
            vstd::arithmetic::div_mod::lemma_mod_bound(m, 64);
            vstd::arithmetic::div_mod::lemma_div_pos_is_pos(m, 64);
            let q = m / 64;
            let r = m % 64;
            if r == 0 {
                vstd::arithmetic::div_mod::lemma_div_multiples_vanish_fancy(q, 63, 64);
                assert(64 * q + 63 == m + 63);
            } else {
                vstd::arithmetic::div_mod::lemma_div_multiples_vanish_fancy(q + 1, r - 1, 64);
                assert(64 * (q + 1) + (r - 1) == m + 63);
            }
            assert(num_words_wide as int == ceil_div(m, 64));
            assert(m <= 64 * (num_words_wide as int) <= m + 63);
            assert(num_words_wide >= 1);
            vstd::arithmetic::div_mod::lemma_div_is_ordered(m + 63, usize::MAX as int * 8, 64);
            vstd::arithmetic::div_mod::lemma_div_is_ordered(
                8 * usize::MAX as int,
                64 * usize::MAX as int,
                64,
            );
            vstd::arithmetic::div_mod::lemma_div_multiples_vanish(usize::MAX as int, 64);
            assert(num_words_wide <= usize::MAX);
        }
        let num_words: usize = num_words_wide as usize;
        let mut bit_vec: Vec<u64> = Vec::new();
        let mut w: usize = 0;
        while w < num_words
            invariant
                w <= num_words,
                bit_vec@.len() == w,
                forall|t: int| 0 <= t < w ==> bit_vec@[t] == 0u64,
            decreases num_words - w,
        {
            bit_vec.push(0u64);
            w = w + 1;
        }
        let bit_count: u64 = num_words_wide * 64;
        let result = BloomFilter { bit_vec, bit_count, hash_fn_count: k };
        proof {
            vstd::arithmetic::div_mod::lemma_mod_multiples_basic(num_words_wide as int, 64);
            assert forall|j: int| 0 <= j < result@.bits.len() implies !result@.bits[j] by {
                lemma_bit_position(j, result.bit_vec@.len() as int);
                lemma_zero_word((j % 64) as u64);
            }
        }
        Ok(result)
    }

    /// Computes the two base digests for an item. Both are pure functions
    /// of the item's canonical byte representation.
    fn get_hashes<T: Hashable + ?Sized>(&self, item: &T) -> (r: (u64, u64))
        ensures
            r.0 == spec_h1(item.hash_writes()),
            r.1 == spec_h2(item.hash_writes()),
    {
        let mut hasher1 = DefaultHasher::new();
        item.feed(&mut hasher1);
        let h1 = hasher1.finish();
        proof {
            assert(Seq::<Seq<u8>>::empty() + item.hash_writes() =~= item.hash_writes());
        }
        let mut hasher2 = DefaultHasher::new();
        item.feed(&mut hasher2);
        let h1_bytes = vstd::bytes::u64_to_le_bytes(h1);
        hasher2.write(h1_bytes.as_slice());
        let h2 = hasher2.finish();
        proof {
            assert((Seq::<Seq<u8>>::empty() + item.hash_writes()).push(h1_bytes@)
                =~= item.hash_writes().push(
                vstd::bytes::spec_u64_to_le_bytes(spec_h1(item.hash_writes())),
            ));
        }
        (h1, h2)
    }

    /// Derives the bit index for the `i`-th simulated hash function via
    /// double hashing; multiplication and addition wrap on overflow.
    fn get_index(&self, h1: u64, h2: u64, i: u32) -> (r: u64)
        requires
            self.wf(),
        ensures
            r as int == spec_bit_index(h1, h2, i as int, self@.bits.len() as int),
            r < self@.bits.len(),
    {
        let offset = h2.wrapping_mul(i as u64);
        let hash = h1.wrapping_add(offset);
        proof {
            let wide = 0x1_0000_0000_0000_0000int;
            vstd::arithmetic::div_mod::lemma_mod_bound(h2 as int * i as int, wide);
            vstd::arithmetic::div_mod::lemma_add_mod_noop_right(h1 as int, h2 as int * i as int, wide);
            if h1 + offset > u64::MAX {
                vstd::arithmetic::div_mod::lemma_mod_sub_multiples_vanish(
                    h1 as int + offset as int,
                    wide,
                );
                vstd::arithmetic::div_mod::lemma_small_mod(
                    (h1 as int + offset as int - wide) as nat,
                    wide as nat,
                );
            } else {
                vstd::arithmetic::div_mod::lemma_small_mod(
                    (h1 as int + offset as int) as nat,
                    wide as nat,
                );
            }
            vstd::arithmetic::div_mod::lemma_mod_bound(hash as int, self.bit_count as int);
        }
        hash % self.bit_count
    }

    /// Computes the word index and the one-bit mask for the `i`-th hash
    /// position of an item.
    fn get_bit(&self, h1: u64, h2: u64, i: u32) -> (r: (usize, u64))
        requires
            self.wf(),
        ensures
            ({
                let idx = spec_bit_index(h1, h2, i as int, self@.bits.len() as int);
                &&& r.0 == idx / 64
                &&& r.0 < self.bit_vec@.len()
                &&& r.1 == (1u64 << ((idx % 64) as u64))
            }),
    {
        let bit_index = self.get_index(h1, h2, i);
        proof {
            lemma_bit_position(bit_index as int, self.bit_vec@.len() as int);
        }
        let vec_index = (bit_index / 64) as usize;
        let mask = 1u64 << (bit_index % 64);
        (vec_index, mask)
    }

    /// Inserts an item: sets each of the k bits the item maps to and leaves
    /// every other bit unchanged. Setting an already-set bit is a no-op, so
    /// bits only ever go from clear to set between clears.
    pub fn insert<T: Hashable + ?Sized>(&mut self, item: &T)
        requires
            old(self).wf(),
        ensures
            final(self).wf(),
            final(self)@.bits.len() == old(self)@.bits.len(),
            final(self)@.hash_fn_count == old(self)@.hash_fn_count,
            forall|j: int|
                0 <= j < final(self)@.bits.len() ==> final(self)@.bits[j] == (old(self)@.bits[j]
                    || old(self)@.is_target(item.hash_writes(), j)),
            final(self)@.contains_item(item.hash_writes()),
    {
        let ghost orig = *self;
        let ghost w = item.hash_writes();
        let (h1, h2) = self.get_hashes(item);
        let k = self.hash_fn_count;
        let mut i: u32 = 0;
        while i < k
            invariant
                self.wf(),
                self.bit_count == orig.bit_count,
                self.hash_fn_count == orig.hash_fn_count,
                self.bit_vec@.len() == orig.bit_vec@.len(),
                k == orig.hash_fn_count,
                i <= k,
                h1 == spec_h1(w),
                h2 == spec_h2(w),
                forall|j: int|
                    0 <= j < self@.bits.len() ==> self@.bits[j] == (orig@.bits[j] || exists|t: int|
                        0 <= t < i && #[trigger] orig@.index_of(w, t) == j),
            decreases k - i,
        {
            let (vec_index, mask) = self.get_bit(h1, h2, i);
            let ghost prev = *self;
            let word = self.bit_vec[vec_index];
            self.bit_vec.set(vec_index, word | mask);
            proof {
                let idx = spec_bit_index(h1, h2, i as int, prev@.bits.len() as int);
                vstd::arithmetic::div_mod::lemma_mod_bound(
                    (h1 + h2 * i) % 0x1_0000_0000_0000_0000,
                    prev@.bits.len() as int,
                );
                lemma_bit_position(idx, prev.bit_vec@.len() as int);
                assert forall|j: int| 0 <= j < self@.bits.len() implies self@.bits[j] == (
                prev@.bits[j] || j == idx) by {
                    lemma_bit_position(j, prev.bit_vec@.len() as int);
                    if j / 64 == idx / 64 {
                        lemma_or_mask(prev.bit_vec@[idx / 64], (idx % 64) as u64, (j % 64) as u64);
                        if j % 64 == idx % 64 {
                            lemma_position_unique(j, idx);
                        }
                    }
                }
                assert(orig@.index_of(w, i as int) == idx);
                assert forall|j: int| 0 <= j < self@.bits.len() implies self@.bits[j] == (
                orig@.bits[j] || exists|t: int|
                    0 <= t < i + 1 && #[trigger] orig@.index_of(w, t) == j) by {
                    if self@.bits[j] {
                        if !prev@.bits[j] {
                            assert(orig@.index_of(w, i as int) == j);
                        }
                    } else {
                        assert(!prev@.bits[j] && j != idx);
                    }
                }
            }
            i = i + 1;
        }
        proof {
            assert forall|t: int|
                0 <= t < self@.hash_fn_count implies self@.bits[#[trigger] self@.index_of(
                w,
                t,
            )] by {
                let j = self@.index_of(w, t);
                vstd::arithmetic::div_mod::lemma_mod_bound(
                    (spec_h1(w) + spec_h2(w) * t) % 0x1_0000_0000_0000_0000,
                    self@.bits.len() as int,
                );
                assert(0 <= t < i && orig@.index_of(w, t) == j);
                assert(self@.bits[j] == (orig@.bits[j] || exists|tt: int|
                    0 <= tt < i && #[trigger] orig@.index_of(w, tt) == j));
            }
        }
    }

    /// Tests whether an item might be in the filter: `true` if all k of the
    /// item's bits are set (possibly a false positive), `false`, on the
    /// first clear bit found, if the item is definitely absent. A pure read
    /// of the filter's state.
    pub fn contains<T: Hashable + ?Sized>(&self, item: &T) -> (r: bool)
        requires
            self.wf(),
        ensures
            r == self@.contains_item(item.hash_writes()),
    {
        let ghost w = item.hash_writes();
        let (h1, h2) = self.get_hashes(item);
        let k = self.hash_fn_count;
        let mut i: u32 = 0;
        while i < k
            invariant
                self.wf(),
                k == self.hash_fn_count,
                i <= k,
                w == item.hash_writes(),
                h1 == spec_h1(w),
                h2 == spec_h2(w),
                forall|t: int| 0 <= t < i ==> self@.bits[#[trigger] self@.index_of(w, t)],
            decreases k - i,
        {
            let (vec_index, mask) = self.get_bit(h1, h2, i);
            let word = self.bit_vec[vec_index];
            if (word & mask) == 0 {
                proof {
                    let idx = self@.index_of(w, i as int);
                    vstd::arithmetic::div_mod::lemma_mod_bound(
                        (h1 + h2 * i) % 0x1_0000_0000_0000_0000,
                        self@.bits.len() as int,
                    );
                    lemma_bit_position(idx, self.bit_vec@.len() as int);
                    lemma_and_mask(word, (idx % 64) as u64);
                    assert(!self@.bits[idx]);
                    assert(!self@.contains_item(w));
                }
                return false;
            }
            proof {
                let idx = self@.index_of(w, i as int);
                vstd::arithmetic::div_mod::lemma_mod_bound(
                    (h1 + h2 * i) % 0x1_0000_0000_0000_0000,
                    self@.bits.len() as int,
                );
                lemma_bit_position(idx, self.bit_vec@.len() as int);
                lemma_and_mask(word, (idx % 64) as u64);
                assert(self@.bits[idx]);
            }
            i = i + 1;
        }
        true
    }

    /// Clears every bit; the bit count and the hash-function count are
    /// unchanged.
    pub fn clear(&mut self)
        requires
            old(self).wf(),
        ensures
            final(self).wf(),
            final(self)@.bits.len() == old(self)@.bits.len(),
            final(self)@.hash_fn_count == old(self)@.hash_fn_count,
            final(self)@.all_clear(),
    {
        let ghost orig = *self;
        let n = self.bit_vec.len();
        let mut j: usize = 0;
        while j < n
            invariant
                self.bit_count == orig.bit_count,
                self.hash_fn_count == orig.hash_fn_count,
                self.bit_vec@.len() == orig.bit_vec@.len(),
                n == orig.bit_vec@.len(),
                j <= n,
                forall|t: int| 0 <= t < j ==> self.bit_vec@[t] == 0u64,
            decreases n - j,
        {
            self.bit_vec.set(j, 0u64);
            j = j + 1;
        }
        proof {
            assert forall|t: int| 0 <= t < self@.bits.len() implies !self@.bits[t] by {
                lemma_bit_position(t, self.bit_vec@.len() as int);
                lemma_zero_word((t % 64) as u64);
            }
        }
    }

    /// Returns the number of hash functions (k) being used.
    pub fn hash_count(&self) -> (r: u32)
        ensures
            r == self@.hash_fn_count,
    {
        self.hash_fn_count
    }

    /// Returns the memory occupied by the backing word array in bytes: one
    /// byte per eight logical bits.
    pub fn memory_usage_bytes(&self) -> (r: usize)
        requires
            self.wf(),
        ensures
            r as int == self@.bits.len() / 8,
    {
        proof {
            vstd::arithmetic::div_mod::lemma_div_multiples_vanish(
                8 * self.bit_vec@.len() as int,
                8,
            );
            assert(8 * (8 * self.bit_vec@.len() as int) == self.bit_vec@.len() as int * 64);
        }
        self.bit_vec.len() * 8
    }
}

/// **No false negatives.** If a filter state answers "possibly present" for
/// an item — in particular, any state right after `insert` of that item,
/// whose contract guarantees it — then every later state of the same shape
/// in which no bit has been cleared still answers "possibly present".
/// `insert` only ever turns bits on, so this covers any sequence of inserts
/// between two clears.
pub proof fn lemma_no_false_negatives(earlier: FilterView, later: FilterView, w: Seq<Seq<u8>>)
    requires
        earlier.bits.len() > 0,
        later.bits.len() == earlier.bits.len(),
        later.hash_fn_count == earlier.hash_fn_count,
        forall|j: int| 0 <= j < earlier.bits.len() && earlier.bits[j] ==> later.bits[j],
        earlier.contains_item(w),
    ensures
        later.contains_item(w),
{
    assert forall|i: int|
        0 <= i < later.hash_fn_count implies later.bits[#[trigger] later.index_of(w, i)] by {
        vstd::arithmetic::div_mod::lemma_mod_bound(
            (spec_h1(w) + spec_h2(w) * i) % 0x1_0000_0000_0000_0000,
            later.bits.len() as int,
        );
        assert(earlier.index_of(w, i) == later.index_of(w, i));
        assert(earlier.bits[earlier.index_of(w, i)]);
    }
}

/// **Clear resets fully.** A filter state with every bit clear — which is
/// what `clear` guarantees — answers "definitely absent" for every item
/// whatsoever.
pub proof fn lemma_cleared_contains_nothing(v: FilterView, w: Seq<Seq<u8>>)
    requires
        v.wf(),
        v.all_clear(),
    ensures
        !v.contains_item(w),
{
    vstd::arithmetic::div_mod::lemma_mod_bound(
        (spec_h1(w) + spec_h2(w) * 0) % 0x1_0000_0000_0000_0000,
        v.bits.len() as int,
    );
    let idx = v.index_of(w, 0);
    assert(0 <= idx < v.bits.len());
    assert(!v.bits[idx]);
}

/// **Determinism.** The answer of a membership query is a pure function of
/// the filter state and the item's byte representation: any two results that
/// meet `contains`'s contract on the same state and item are equal.
pub proof fn lemma_contains_deterministic(
    v: FilterView,
    w: Seq<Seq<u8>>,
    first: bool,
    second: bool,
)
    requires
        first == v.contains_item(w),
        second == v.contains_item(w),
    ensures
        first == second,
{
}

} // verus!
