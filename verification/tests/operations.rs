//! Insert, query and clear behaviour, over the item types the filter can
//! hash, and the statistical false-positive check.

use bloom::BloomFilter;
use bloom::FilterParams;

/// The minimum bit count for `expected_items` at target false-positive rate
/// `rate`: m = ceil(-(n * ln p) / (ln 2)^2).
fn required_bits_for_rate(expected_items: u64, rate: f64) -> u64 {
    let ln2 = std::f64::consts::LN_2;
    let numerator = -1.0 * (expected_items as f64) * rate.ln();
    let denominator = ln2 * ln2;
    (numerator / denominator).ceil() as u64
}

fn filter_for_rate(expected_items: u64, rate: f64) -> BloomFilter {
    let m = required_bits_for_rate(expected_items, rate);
    BloomFilter::new(expected_items, FilterParams::RequiredBits(m)).unwrap()
}

#[test]
fn test_insert_and_contains() {
    let mut bf = filter_for_rate(100, 0.01);
    bf.insert("seen");
    bf.insert("also seen");

    assert!(bf.contains("seen"));
    assert!(bf.contains("also seen"));
    assert!(!bf.contains("unseen"));
}

#[test]
fn test_clear() {
    let mut bf = filter_for_rate(100, 0.01);
    bf.insert(&1);
    bf.clear();
    assert!(!bf.contains(&1));
}

#[test]
fn test_custom_struct_support() {
    // A composite item hashes structurally, one component after another.
    let mut bf = filter_for_rate(10, 0.01);
    let user: (u32, String) = (1, "Alyssa P. Hacker".to_string());

    bf.insert(&user);
    assert!(bf.contains(&user));

    let other_user: (u32, String) = (2, "Eva Lu Ator".to_string());
    assert!(!bf.contains(&other_user));
}

#[test]
fn test_no_false_negatives_under_load() {
    // Overfill a small filter: queries for inserted items must still all
    // answer true, whatever the false-positive rate has become.
    let mut bf = BloomFilter::new(20, FilterParams::HashCount(4)).unwrap();
    for x in 0u64..200 {
        bf.insert(&x);
    }
    for x in 0u64..200 {
        assert!(bf.contains(&x));
    }
}

#[test]
fn test_clear_then_reinsert() {
    let mut bf = filter_for_rate(100, 0.01);
    for x in 0u64..100 {
        bf.insert(&x);
    }
    bf.clear();
    for x in 0u64..100 {
        assert!(!bf.contains(&x));
    }
    bf.insert(&42u64);
    assert!(bf.contains(&42u64));
    assert!(!bf.contains(&41u64));
}

#[test]
fn test_repeated_queries_are_deterministic() {
    let mut bf = filter_for_rate(100, 0.01);
    bf.insert("present");
    let first = bf.contains("present");
    let second = bf.contains("present");
    assert_eq!(first, second);
    let first_absent = bf.contains("absent");
    let second_absent = bf.contains("absent");
    assert_eq!(first_absent, second_absent);
    assert!(first);
}

#[test]
fn test_double_insert_is_idempotent() {
    let mut bf = filter_for_rate(100, 0.01);
    bf.insert(&7u64);
    let before = bf.contains(&7u64);
    bf.insert(&7u64);
    assert!(before);
    assert!(bf.contains(&7u64));
}

#[test]
fn test_item_type_coverage() {
    let mut bf = filter_for_rate(100, 0.01);
    bf.insert(&3u32);
    bf.insert(&4u64);
    bf.insert(&5usize);
    bf.insert(&-6i32);
    bf.insert(&-7i64);
    bf.insert(&String::from("owned"));
    assert!(bf.contains(&3u32));
    assert!(bf.contains(&4u64));
    assert!(bf.contains(&5usize));
    assert!(bf.contains(&-6i32));
    assert!(bf.contains(&-7i64));
    assert!(bf.contains(&String::from("owned")));
    assert!(bf.contains("owned"));
    assert!(!bf.contains(&8u64));
}

#[test]
fn test_owned_and_borrowed_strings_agree() {
    // An owned string and the equal slice have the same byte representation,
    // so they stand for the same item.
    let mut bf = filter_for_rate(100, 0.01);
    bf.insert("shared");
    assert!(bf.contains(&String::from("shared")));
}

#[test]
fn test_empirical_false_positive_rate() {
    // Size for 1000 items at a 1% target, insert 1000 distinct items, then
    // query 10000 distinct unseen items: the observed false-positive
    // fraction should sit within a small constant factor of the target.
    let inserted: u64 = 1000;
    let queried: u64 = 10000;
    let mut bf = filter_for_rate(inserted, 0.01);
    for x in 0..inserted {
        bf.insert(&x);
    }
    let mut false_positives: u64 = 0;
    for x in 10000..(10000 + queried) {
        if bf.contains(&x) {
            false_positives += 1;
        }
    }
    let fraction = false_positives as f64 / queried as f64;
    assert!(fraction <= 0.04, "false-positive fraction too high: {fraction}");
    assert!(false_positives >= 10, "implausibly few false positives: {false_positives}");
}
