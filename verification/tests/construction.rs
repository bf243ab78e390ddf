//! Construction and sizing behaviour: derived bit counts, derived hash
//! counts, and rejection of degenerate parameters.

use bloom::BloomFilter;
use bloom::FilterError;
use bloom::FilterParams;

/// The minimum bit count for `expected_items` at target false-positive rate
/// `rate`: m = ceil(-(n * ln p) / (ln 2)^2). The filter itself stays clear of
/// floating point, so the transcendental step happens at the caller.
fn required_bits_for_rate(expected_items: u64, rate: f64) -> u64 {
    let ln2 = std::f64::consts::LN_2;
    let numerator = -1.0 * (expected_items as f64) * rate.ln();
    let denominator = ln2 * ln2;
    (numerator / denominator).ceil() as u64
}

#[test]
fn test_initialization_with_rate() {
    let m = required_bits_for_rate(100, 0.01);
    let bf = BloomFilter::new(100, FilterParams::RequiredBits(m)).unwrap();
    // 959 required bits round up to 15 words of 64 bits.
    assert_eq!(bf.memory_usage_bytes(), 15 * 8);
    assert!(bf.hash_count() > 0);
}

#[test]
fn test_initialization_with_hashes() {
    // k=7 implies p ~= 0.01. m should be roughly the same as above.
    let bf = BloomFilter::new(100, FilterParams::HashCount(7)).unwrap();
    assert_eq!(bf.hash_count(), 7);
    // m = k * n / ln(2) = 700 / 0.693 = 1010 bits -> 16 words, >= 15.
    assert!(bf.memory_usage_bytes() >= 15 * 8);
}

#[test]
fn test_fixed_hash_count_is_kept_exactly() {
    for k in [1u32, 2, 7, 13, 20] {
        let bf = BloomFilter::new(100, FilterParams::HashCount(k)).unwrap();
        assert_eq!(bf.hash_count(), k);
    }
}

#[test]
fn test_bit_count_is_word_aligned_and_positive() {
    for n in [1u64, 3, 100, 1000] {
        for rate in [0.5f64, 0.1, 0.01, 0.001] {
            let m = required_bits_for_rate(n, rate);
            let bf = BloomFilter::new(n, FilterParams::RequiredBits(m)).unwrap();
            let bits = bf.memory_usage_bytes() as u64 * 8;
            assert!(bits > 0);
            assert_eq!(bits % 64, 0);
            assert!(bits >= m);
            assert!(bf.hash_count() >= 1);
        }
    }
}

#[test]
fn test_sizing_for_one_hundred_items_at_one_percent() {
    // Scenario: 100 expected items at rate 0.01 need 959 bits and 7 hashes.
    let m = required_bits_for_rate(100, 0.01);
    assert_eq!(m, 959);
    let bf = BloomFilter::new(100, FilterParams::RequiredBits(m)).unwrap();
    assert!(bf.hash_count() > 0);
    assert_eq!(bf.hash_count(), 7);
    // Storage holds at least the required bits, rounded to the word boundary.
    assert_eq!(bf.memory_usage_bytes() as u64 * 8, 960);
}

#[test]
fn test_minimal_request_gets_one_word_and_one_hash() {
    let bf = BloomFilter::new(100, FilterParams::RequiredBits(64)).unwrap();
    assert_eq!(bf.memory_usage_bytes(), 8);
    assert_eq!(bf.hash_count(), 1);
}

#[test]
fn test_zero_items_rejected() {
    let r = BloomFilter::new(0, FilterParams::HashCount(7));
    assert_eq!(r.unwrap_err(), FilterError::InvalidConstructionParameter);
    let r = BloomFilter::new(0, FilterParams::RequiredBits(64));
    assert_eq!(r.unwrap_err(), FilterError::InvalidConstructionParameter);
}

#[test]
fn test_zero_hashes_rejected() {
    let r = BloomFilter::new(100, FilterParams::HashCount(0));
    assert_eq!(r.unwrap_err(), FilterError::InvalidConstructionParameter);
}

#[test]
fn test_zero_bits_rejected() {
    let r = BloomFilter::new(100, FilterParams::RequiredBits(0));
    assert_eq!(r.unwrap_err(), FilterError::InvalidConstructionParameter);
}
