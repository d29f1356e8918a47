use bloom_filter::bit_array::BitArray;

#[test]
fn bit_array_set_from_u64() {
    let size = 8 * 4 + 3;
    let mut ba = BitArray::new(size);

    ba.set_bit_from_u64(0);
    assert_eq!(ba.get_bit(0), true);
    assert_eq!(ba.get_bit_from_u64(0), true);

    ba.set_bit_from_u64(u64::MAX);
    assert_eq!(ba.get_bit(size - 1), true);
    assert_eq!(ba.get_bit_from_u64(u64::MAX), true);

    let test_u64 = u64::MAX / 2;
    ba.set_bit_from_u64(test_u64);
    assert_eq!(ba.get_bit_from_u64(test_u64), true);
    let bit_index = ba.bit_index_from_u64(test_u64);
    assert_eq!(ba.get_bit(bit_index), true);
    assert_eq!(ba.get_bit(bit_index + 1), false);
    assert_eq!(ba.get_bit(bit_index - 1), false);
}

#[test]
fn bit_index_from_u64() {
    let size = 8 * 4 + 1;
    let ba = BitArray::new(size);

    assert_eq!(ba.bit_index_from_u64(0), 0);
    assert_eq!(ba.bit_index_from_u64(u64::MAX), size - 1);
}

#[test]
fn bit_array() {
    let size = 8 * 4;
    let mut ba = BitArray::new(size);

    ba.set_bit(size - 1);
    assert_eq!(ba.byte_at(size / 8 - 1), 1u8);
    ba.set_bit(size - 2);
    assert_eq!(ba.byte_at(size / 8 - 1), 3u8);
    ba.set_bit(0);
    assert_eq!(ba.byte_at(0), 2u8.pow(7));
    ba.set_bit(1);
    assert_eq!(ba.byte_at(0), 2u8.pow(7) + 2u8.pow(6));
    ba.set_bit(1);
    assert_eq!(ba.byte_at(0), 2u8.pow(7) + 2u8.pow(6));

    assert_eq!(ba.get_bit(0), true);
    assert_eq!(ba.get_bit(1), true);
    assert_eq!(ba.get_bit(2), false);
    assert_eq!(ba.get_bit(3), false);
}

#[test]
fn boundary_mapping_on_small_capacities() {
    let ba = BitArray::new(1);
    assert_eq!(ba.bit_index_from_u64(0), 0);
    assert_eq!(ba.bit_index_from_u64(u64::MAX / 2), 0);
    assert_eq!(ba.bit_index_from_u64(u64::MAX), 0);

    let ba = BitArray::new(2);
    assert_eq!(ba.bit_index_from_u64(0), 0);
    assert_eq!(ba.bit_index_from_u64(u64::MAX), 1);

    let ba = BitArray::new(1000);
    assert_eq!(ba.bit_index_from_u64(0), 0);
    assert_eq!(ba.bit_index_from_u64(u64::MAX), 999);
}

#[test]
fn new_bit_array_is_all_zero() {
    let size = 8 * 3 + 5;
    let ba = BitArray::new(size);
    for byte_index in 0..4 {
        assert_eq!(ba.byte_at(byte_index), 0u8);
    }
    for bit_index in 0..size {
        assert_eq!(ba.get_bit(bit_index), false);
    }
}

#[test]
fn bit_array_determinism() {
    let mut first = BitArray::new(8 * 5 + 2);
    let mut second = BitArray::new(8 * 5 + 2);
    let digests = [0u64, 17, 123_456_789, u64::MAX / 3, u64::MAX];
    for &digest in digests.iter() {
        first.set_bit_from_u64(digest);
        second.set_bit_from_u64(digest);
    }
    for byte_index in 0..6 {
        assert_eq!(first.byte_at(byte_index), second.byte_at(byte_index));
    }
}
