//! Word-level bit addressing: reading, setting and testing a single bit
//! inside a 64-bit storage word.

use vstd::prelude::*;

verus! {

/// Whether bit `b` (counted from the least significant end) of word `w` is
/// set.
pub open spec fn word_bit(w: u64, b: u64) -> bool
    recommends
        b < 64,
{
    (w >> b) & 1 == 1
}

/// Setting one bit by or-ing a mask leaves every other bit alone and turns
/// the masked bit on.
pub proof fn lemma_or_mask(w: u64, m: u64, b: u64)
    requires
        m < 64,
        b < 64,
    ensures
        word_bit(w | (1u64 << m), b) == (word_bit(w, b) || b == m),
{
    assert(((w | (1u64 << m)) >> b) & 1 == if b == m {
        1u64
    } else {
        (w >> b) & 1
    }) by (bit_vector)
        requires
            m < 64 && b < 64,
    ;
    assert((w >> b) & 1 == 0 || (w >> b) & 1 == 1) by (bit_vector);
}

/// And-ing a word against a one-bit mask is zero exactly when that bit of
/// the word is clear.
pub proof fn lemma_and_mask(w: u64, m: u64)
    requires
        m < 64,
    ensures
        (w & (1u64 << m)) == 0 <==> !word_bit(w, m),
{
    assert((w & (1u64 << m)) == 0 <==> (w >> m) & 1 == 0) by (bit_vector)
        requires
            m < 64,
    ;
    assert((w >> m) & 1 == 0 || (w >> m) & 1 == 1) by (bit_vector);
}

/// A bit index below `words * 64` addresses a valid word and a bit offset
/// inside it, and is recovered from the two.
pub proof fn lemma_bit_position(j: int, words: int)
    requires
        0 <= j < words * 64,
    ensures
        0 <= j / 64 < words,
        0 <= j % 64 < 64,
        j == 64 * (j / 64) + j % 64,
{
    vstd::arithmetic::div_mod::lemma_div_pos_is_pos(j, 64);
    vstd::arithmetic::div_mod::lemma_mod_bound(j, 64);
    vstd::arithmetic::div_mod::lemma_fundamental_div_mod(j, 64);
    vstd::arithmetic::div_mod::lemma_div_is_ordered(j, words * 64 - 1, 64);
    vstd::arithmetic::div_mod::lemma_div_multiples_vanish_fancy(words - 1, 63, 64);
    assert(64 * (words - 1) + 63 == words * 64 - 1);
}

/// Two bit indices with the same word index and the same offset inside the
/// word are the same bit index.
pub proof fn lemma_position_unique(j: int, idx: int)
    requires
        j / 64 == idx / 64,
        j % 64 == idx % 64,
    ensures
        j == idx,
{
    vstd::arithmetic::div_mod::lemma_fundamental_div_mod(j, 64);
    vstd::arithmetic::div_mod::lemma_fundamental_div_mod(idx, 64);
}

/// Every bit of the zero word is clear.
pub proof fn lemma_zero_word(b: u64)
    requires
        b < 64,
    ensures
        !word_bit(0u64, b),
{
    assert((0u64 >> b) & 1 == 0) by (bit_vector);
}

} // verus!
