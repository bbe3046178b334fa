use bloom_filter_plus::{BloomFilter, FilterError, TRAILER_LEN};

#[test]
fn image_is_bitmap_then_little_endian_trailer() {
    let filter = BloomFilter::new(Some(2), Some(10));
    assert_eq!(filter.to_bytes(), vec![0, 0, 10, 0, 0, 0, 0, 0, 0, 0]);
    let filter = BloomFilter::new(Some(1), Some(0x0102_0304));
    assert_eq!(filter.to_bytes(), vec![0, 4, 3, 2, 1, 0, 0, 0, 0]);
    assert_eq!(TRAILER_LEN, 8);
}

#[test]
fn to_bytes_does_not_change_the_filter() {
    let mut filter = BloomFilter::new(Some(16), Some(3));
    filter.insert("key");
    let first = filter.to_bytes();
    let second = filter.to_bytes();
    assert_eq!(first, second);
    assert_eq!(first.len(), 24);
    assert_eq!(filter.size(), 16);
    assert!(filter.contains("key"));
}

#[test]
fn load_takes_bitmap_and_probe_count_from_the_image() {
    let mut filter = BloomFilter::new(None, None);
    let outcome = filter.load_bytes(&[0xff, 0x01, 3, 0, 0, 0, 0, 0, 0, 0]);
    assert_eq!(outcome, Ok(()));
    assert_eq!(filter.size(), 2);
    assert_eq!(filter.hash_loop(), 3);
    assert!(!filter.is_empty());
    assert_eq!(filter.bit_string(), "1111111100000001");
    assert_eq!(filter.to_bytes(), vec![0xff, 0x01, 3, 0, 0, 0, 0, 0, 0, 0]);
}

#[test]
fn round_trip_keeps_keys_size_and_probe_count() {
    let mut filter = BloomFilter::new(Some(300), Some(6));
    let keys = ["key", "another", "", "third key", "z"];
    for key in keys {
        filter.insert(key);
    }
    let image = filter.to_bytes();
    let mut restored = BloomFilter::new(None, None);
    assert_eq!(restored.load_bytes(&image), Ok(()));
    assert_eq!(restored.size(), filter.size());
    assert_eq!(restored.hash_loop(), filter.hash_loop());
    for key in keys {
        assert!(restored.contains(key));
    }
    assert_eq!(restored.to_bytes(), image);
    for probe in ["key1", "absent", "other"] {
        assert_eq!(restored.contains(probe), filter.contains(probe));
    }
}

#[test]
fn round_trip_of_an_untouched_filter_loads_as_populated() {
    let filter = BloomFilter::new(Some(4), Some(2));
    let mut restored = BloomFilter::new(None, None);
    assert_eq!(restored.load_bytes(&filter.to_bytes()), Ok(()));
    assert!(!restored.is_empty());
    assert_eq!(restored.size(), 4);
    assert_eq!(restored.hash_loop(), 2);
    assert!(!restored.contains("key"));
}

#[test]
fn load_is_refused_after_insert() {
    let mut filter = BloomFilter::new(Some(8), Some(2));
    filter.insert("key");
    let before = filter.to_bytes();
    let image = [0u8, 0, 0, 0, 1, 0, 0, 0, 0, 0, 0, 0];
    assert_eq!(filter.load_bytes(&image), Err(FilterError::Config));
    assert_eq!(filter.to_bytes(), before);
    assert_eq!(filter.size(), 8);
    assert_eq!(filter.hash_loop(), 2);
    assert!(filter.contains("key"));
    assert_eq!(filter.load_bytes(&[1, 2, 3]), Err(FilterError::Config));
}

#[test]
fn load_is_refused_after_load() {
    let mut filter = BloomFilter::new(None, None);
    let image = [7u8, 1, 0, 0, 0, 0, 0, 0, 0];
    assert_eq!(filter.load_bytes(&image), Ok(()));
    assert_eq!(filter.load_bytes(&image), Err(FilterError::Config));
    assert_eq!(filter.to_bytes(), image.to_vec());
}

#[test]
fn load_rejects_an_image_shorter_than_the_trailer() {
    for len in 0..8usize {
        let mut filter = BloomFilter::new(Some(4), Some(2));
        let image = vec![0xabu8; len];
        assert_eq!(filter.load_bytes(&image), Err(FilterError::Format));
        assert!(filter.is_empty());
        assert_eq!(filter.size(), 4);
        assert_eq!(filter.hash_loop(), 2);
        assert_eq!(filter.to_bytes(), vec![0, 0, 0, 0, 2, 0, 0, 0, 0, 0, 0, 0]);
    }
}

#[test]
fn load_accepts_an_image_that_is_only_a_trailer() {
    let mut filter = BloomFilter::new(None, None);
    assert_eq!(filter.load_bytes(&[9, 0, 0, 0, 0, 0, 0, 0]), Ok(()));
    assert_eq!(filter.size(), 0);
    assert_eq!(filter.hash_loop(), 9);
    assert!(!filter.is_empty());
}

#[test]
fn load_after_clear_is_accepted() {
    let mut filter = BloomFilter::new(Some(8), Some(2));
    filter.insert("key");
    filter.clear();
    assert_eq!(filter.load_bytes(&[0x80, 4, 0, 0, 0, 0, 0, 0, 0]), Ok(()));
    assert_eq!(filter.size(), 1);
    assert_eq!(filter.hash_loop(), 4);
}

#[test]
fn bit_string_shows_each_byte_most_significant_bit_first() {
    let mut filter = BloomFilter::new(None, None);
    filter.load_bytes(&[0x05, 0x80, 0x00, 0xff, 1, 0, 0, 0, 0, 0, 0, 0]).unwrap();
    assert_eq!(filter.bit_string(), "00000101100000000000000011111111");
}

#[test]
fn bit_string_of_a_fresh_filter_is_all_zeros() {
    let filter = BloomFilter::new(Some(3), None);
    assert_eq!(filter.bit_string(), "0".repeat(24));
}
