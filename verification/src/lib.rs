//! A verified Bloom filter: a probabilistic set-membership structure with
//! one-sided error. Items are hashed into a fixed bit array through a
//! double-hashing scheme that simulates many hash functions from two real
//! hash computations; queries may report false positives but never false
//! negatives.

pub mod bits;
pub mod filter;
pub mod hashable;
pub mod params;

pub use filter::BloomFilter;
pub use filter::FilterView;
pub use hashable::Hashable;
pub use params::FilterError;
pub use params::FilterParams;
