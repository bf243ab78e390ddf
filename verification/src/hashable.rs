//! The hashing capability that items stored in the filter must offer, and
//! the derivation of the two 64-bit base digests from it.
//!
//! An item type declares, as a specification, the chunks of bytes it writes
//! into a hasher, and provides a verified `feed` that performs exactly those
//! writes. The filter then computes two digests: `h1` hashes the item's
//! writes alone, and `h2` hashes the item's writes followed by the eight
//! little-endian bytes of `h1`, so the second digest is derived from but
//! decorrelated from the first. Both digests are pure functions of the
//! item's byte representation, which is what makes membership queries
//! deterministic.

use std::collections::hash_map::DefaultHasher;
use std::hash::Hasher;
use vstd::bytes::spec_u32_to_le_bytes;
use vstd::bytes::spec_u64_to_le_bytes;
use vstd::bytes::u32_to_le_bytes;
use vstd::bytes::u64_to_le_bytes;
use vstd::prelude::*;
use vstd::std_specs::hash::DefaultHasherAdditionalSpecFns;
use vstd::string::StringSliceAdditionalSpecFns;
use vstd::utf8::encode_utf8;

verus! {

/// The capability an item needs so the filter can hash it: a canonical byte
/// representation, stated as the sequence of chunks the item writes into a
/// hasher, and a verified method performing those writes.
pub trait Hashable {
    /// The chunks of bytes this value writes into a hasher, in order.
    spec fn hash_writes(&self) -> Seq<Seq<u8>>;

    /// Writes the value's canonical byte representation into `hasher`.
    fn feed(&self, hasher: &mut DefaultHasher)
        ensures
            final(hasher)@ == old(hasher)@ + self.hash_writes(),
    ;
}

/// The first base digest of an item: the hash of its writes alone.
pub open spec fn spec_h1(w: Seq<Seq<u8>>) -> u64 {
    DefaultHasher::spec_finish(w)
}

/// The second base digest of an item: the hash of its writes followed by
/// the eight little-endian bytes of the first digest.
pub open spec fn spec_h2(w: Seq<Seq<u8>>) -> u64 {
    DefaultHasher::spec_finish(w.push(spec_u64_to_le_bytes(spec_h1(w))))
}

impl Hashable for u64 {
    open spec fn hash_writes(&self) -> Seq<Seq<u8>> {
        seq![spec_u64_to_le_bytes(*self)]
    }

    fn feed(&self, hasher: &mut DefaultHasher) {
        let bytes = u64_to_le_bytes(*self);
        hasher.write(bytes.as_slice());
        proof {
            assert(old(hasher)@.push(bytes@) =~= old(hasher)@ + self.hash_writes());
        }
    }
}

impl Hashable for u32 {
    open spec fn hash_writes(&self) -> Seq<Seq<u8>> {
        seq![spec_u32_to_le_bytes(*self)]
    }

    fn feed(&self, hasher: &mut DefaultHasher) {
        let bytes = u32_to_le_bytes(*self);
        hasher.write(bytes.as_slice());
        proof {
            assert(old(hasher)@.push(bytes@) =~= old(hasher)@ + self.hash_writes());
        }
    }
}

impl Hashable for usize {
    open spec fn hash_writes(&self) -> Seq<Seq<u8>> {
        seq![spec_u64_to_le_bytes(*self as u64)]
    }

    fn feed(&self, hasher: &mut DefaultHasher) {
        let bytes = u64_to_le_bytes(*self as u64);
        hasher.write(bytes.as_slice());
        proof {
            assert(old(hasher)@.push(bytes@) =~= old(hasher)@ + self.hash_writes());
        }
    }
}

/// The two's-complement image of an `i32`, as the unsigned value with the
/// same bits.
pub open spec fn spec_i32_bits(x: i32) -> u32 {
    if x >= 0 {
        x as u32
    } else {
        (x + 0x1_0000_0000) as u32
    }
}

impl Hashable for i32 {
    open spec fn hash_writes(&self) -> Seq<Seq<u8>> {
        seq![spec_u32_to_le_bytes(spec_i32_bits(*self))]
    }

    fn feed(&self, hasher: &mut DefaultHasher) {
        let unsigned: u32 = if *self >= 0 {
            *self as u32
        } else {
            ((*self as i64) + 0x1_0000_0000i64) as u32
        };
        let bytes = u32_to_le_bytes(unsigned);
        hasher.write(bytes.as_slice());
        proof {
            assert(old(hasher)@.push(bytes@) =~= old(hasher)@ + self.hash_writes());
        }
    }
}

/// The two's-complement image of an `i64`, as the unsigned value with the
/// same bits.
pub open spec fn spec_i64_bits(x: i64) -> u64 {
    if x >= 0 {
        x as u64
    } else {
        (x + 0x1_0000_0000_0000_0000) as u64
    }
}

impl Hashable for i64 {
    open spec fn hash_writes(&self) -> Seq<Seq<u8>> {
        seq![spec_u64_to_le_bytes(spec_i64_bits(*self))]
    }

    fn feed(&self, hasher: &mut DefaultHasher) {
        let unsigned: u64 = if *self >= 0 {
            *self as u64
        } else {
            ((*self as i128) + 0x1_0000_0000_0000_0000i128) as u64
        };
        let bytes = u64_to_le_bytes(unsigned);
        hasher.write(bytes.as_slice());
        proof {
            assert(old(hasher)@.push(bytes@) =~= old(hasher)@ + self.hash_writes());
        }
    }
}

impl Hashable for str {
    open spec fn hash_writes(&self) -> Seq<Seq<u8>> {
        seq![self.spec_bytes()]
    }

    fn feed(&self, hasher: &mut DefaultHasher) {
        hasher.write(self.as_bytes());
        proof {
            assert(old(hasher)@.push(self.spec_bytes()) =~= old(hasher)@ + self.hash_writes());
        }
    }
}

impl Hashable for String {
    open spec fn hash_writes(&self) -> Seq<Seq<u8>> {
        seq![encode_utf8(self@)]
    }

    fn feed(&self, hasher: &mut DefaultHasher) {
        hasher.write(self.as_str().as_bytes());
        proof {
            assert(old(hasher)@.push(encode_utf8(self@)) =~= old(hasher)@ + self.hash_writes());
        }
    }
}

/// Composite values hash structurally: a pair contributes the writes of its
/// first component followed by the writes of its second.
impl<A: Hashable, B: Hashable> Hashable for (A, B) {
    open spec fn hash_writes(&self) -> Seq<Seq<u8>> {
        self.0.hash_writes() + self.1.hash_writes()
    }

    fn feed(&self, hasher: &mut DefaultHasher) {
        self.0.feed(hasher);
        self.1.feed(hasher);
        proof {
            assert(old(hasher)@ + self.0.hash_writes() + self.1.hash_writes() =~= old(hasher)@
                + self.hash_writes());
        }
    }
}

} // verus!
