use bloom_filter::BloomFilter;
use bloom_filter::bit_array::align_capacity_to_byte;

#[test]
fn insert_and_query_single_element() {
    let mut bf = BloomFilter::new(8 * 4, 1);

    bf.insert(12);
    assert_eq!(bf.maybe_contains(12), true);
    assert_eq!(bf.maybe_contains(13), false);
    assert_eq!(bf.maybe_contains(14), false);

    let mut bf = BloomFilter::new(8 * 4, 10);

    bf.insert("foo");
    assert_eq!(bf.maybe_contains("foo"), true);
    assert_eq!(bf.maybe_contains("bar"), false);
    assert_eq!(bf.maybe_contains("baz"), false);
}

#[test]
fn no_false_negatives_after_many_insertions() {
    let mut bf = BloomFilter::new(1024, 4);
    for i in 0..50u64 {
        bf.insert(i);
        assert_eq!(bf.maybe_contains(i), true);
    }
    for i in 0..50u64 {
        assert_eq!(bf.maybe_contains(i), true);
    }
}

#[test]
fn queries_stay_true_after_further_insertions() {
    let mut bf = BloomFilter::new(256, 3);
    bf.insert(7u64);
    assert_eq!(bf.maybe_contains(7u64), true);
    for i in 100..140u64 {
        bf.insert(i);
        assert_eq!(bf.maybe_contains(7u64), true);
    }
    bf.insert("other");
    assert_eq!(bf.maybe_contains(7u64), true);
}

#[test]
fn identical_filters_answer_alike() {
    let mut first = BloomFilter::new(128, 3);
    let mut second = BloomFilter::new(128, 3);
    for i in 0..20u64 {
        first.insert(i * 3);
        second.insert(i * 3);
    }
    for i in 0..100u64 {
        assert_eq!(first.maybe_contains(i), second.maybe_contains(i));
    }
}

#[test]
fn fresh_filter_contains_nothing() {
    let bf = BloomFilter::new(64, 2);
    for i in 0..64u64 {
        assert_eq!(bf.maybe_contains(i), false);
    }
    assert_eq!(bf.maybe_contains("anything"), false);
}

#[test]
fn low_false_positive_rate_at_low_load() {
    // The parameters the standard sizing formulas give for a 1% false
    // positive bound at 1000 insertions: 9584 bits (byte-aligned) and 7
    // hash functions. At a tenth of that load a false positive on a single
    // uninserted value is overwhelmingly unlikely.
    let mut bf = BloomFilter::new(9584, 7);
    for i in 0..100u64 {
        bf.insert(i);
        assert_eq!(bf.maybe_contains(i), true);
    }
    assert_eq!(bf.maybe_contains(100u64), false);
}

#[test]
fn aligned_capacity_is_next_byte_multiple() {
    assert_eq!(align_capacity_to_byte(0), 0);
    assert_eq!(align_capacity_to_byte(1), 8);
    assert_eq!(align_capacity_to_byte(8), 8);
    assert_eq!(align_capacity_to_byte(9), 16);
    assert_eq!(align_capacity_to_byte(9583), 9584);
    assert_eq!(align_capacity_to_byte(9584), 9584);
}

#[test]
fn zero_hash_functions_answer_true_vacuously() {
    let mut bf = BloomFilter::new(16, 0);
    assert_eq!(bf.maybe_contains(5u64), true);
    bf.insert(5u64);
    assert_eq!(bf.maybe_contains(5u64), true);
    assert_eq!(bf.maybe_contains(6u64), true);
}
