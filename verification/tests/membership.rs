use bloom_filter_plus::{BloomFilter, DEFAULT_HASH_LOOP, DEFAULT_SIZE};

#[test]
fn default_filter_reports_inserted_key_only() {
    let mut filter = BloomFilter::new(Some(1024), Some(10));
    filter.insert("key");
    assert_eq!(true, filter.contains("key"));
    assert_eq!(false, filter.contains("key1"));
}

#[test]
fn small_filter_reports_inserted_key_only() {
    let mut filter = BloomFilter::new(None, None);
    filter.set_size(10);
    filter.insert("key");
    assert_eq!(true, filter.contains("key"));
    assert_eq!(false, filter.contains("key1"));
}

#[test]
fn new_uses_defaults_when_nothing_is_given() {
    let filter = BloomFilter::new(None, None);
    assert_eq!(filter.size(), 1024);
    assert_eq!(filter.hash_loop(), 10);
    assert_eq!(DEFAULT_SIZE, 1024);
    assert_eq!(DEFAULT_HASH_LOOP, 10);
    assert!(filter.is_empty());
    assert_eq!(filter.to_bytes()[..1024], [0u8; 1024]);
}

#[test]
fn new_falls_back_to_defaults_on_zero() {
    let filter = BloomFilter::new(Some(0), Some(0));
    assert_eq!(filter.size(), 1024);
    assert_eq!(filter.hash_loop(), 10);
    let filter = BloomFilter::new(Some(0), Some(3));
    assert_eq!(filter.size(), 1024);
    assert_eq!(filter.hash_loop(), 3);
    let filter = BloomFilter::new(Some(5), Some(0));
    assert_eq!(filter.size(), 5);
    assert_eq!(filter.hash_loop(), 10);
}

#[test]
fn new_takes_explicit_configuration() {
    let filter = BloomFilter::new(Some(5), Some(3));
    assert_eq!(filter.size(), 5);
    assert_eq!(filter.hash_loop(), 3);
    assert!(filter.is_empty());
    assert_eq!(filter.to_bytes(), vec![0, 0, 0, 0, 0, 3, 0, 0, 0, 0, 0, 0, 0]);
}

#[test]
fn empty_filter_reports_nothing() {
    let filter = BloomFilter::new(Some(64), Some(4));
    for key in ["", "a", "key", "never-inserted-key"] {
        assert!(!filter.contains(key));
    }
}

#[test]
fn no_false_negatives_over_many_keys() {
    let mut filter = BloomFilter::new(Some(256), Some(5));
    let keys: Vec<String> = (0..200).map(|i| format!("key-{}", i)).collect();
    for (n, key) in keys.iter().enumerate() {
        filter.insert(key);
        for earlier in &keys[..=n] {
            assert!(filter.contains(earlier));
        }
    }
}

#[test]
fn empty_key_can_be_inserted() {
    let mut filter = BloomFilter::new(Some(32), Some(3));
    filter.insert("");
    assert!(filter.contains(""));
    assert!(!filter.is_empty());
}

#[test]
fn second_insert_of_a_key_changes_nothing() {
    let mut filter = BloomFilter::new(Some(128), Some(7));
    filter.insert("alpha");
    filter.insert("beta");
    let once = filter.to_bytes();
    filter.insert("alpha");
    assert_eq!(filter.to_bytes(), once);
    filter.insert("beta");
    assert_eq!(filter.to_bytes(), once);
    assert!(!filter.is_empty());
}

#[test]
fn insert_never_clears_a_bit() {
    let mut filter = BloomFilter::new(Some(16), Some(4));
    let mut before = filter.to_bytes();
    for i in 0..50 {
        filter.insert(&format!("k{}", i));
        let after = filter.to_bytes();
        for (old, new) in before.iter().zip(after.iter()).take(16) {
            assert_eq!(old & new, *old);
        }
        before = after;
    }
}

#[test]
fn insert_with_no_rounds_marks_only_the_leading_probe() {
    let mut filter = BloomFilter::new(None, None);
    filter.load_bytes(&[0, 0, 0, 0, 0, 0, 0, 0, 0, 0, 0, 0]).unwrap();
    assert_eq!(filter.size(), 4);
    assert_eq!(filter.hash_loop(), 0);
    assert_eq!(filter.hash("anything"), vec![0]);
    filter.insert("anything");
    assert_eq!(filter.to_bytes(), vec![1, 0, 0, 0, 0, 0, 0, 0, 0, 0, 0, 0]);
    assert!(filter.contains("anything"));
    assert!(filter.contains("something else"));
}

#[test]
fn insert_sets_the_bit_named_by_the_byte_index() {
    let mut filter = BloomFilter::new(Some(64), Some(6));
    let probes = filter.hash("key");
    filter.insert("key");
    let image = filter.to_bytes();
    for byte in 0..64usize {
        let expected: u8 = if probes.contains(&byte) { 1 << (byte % 8) } else { 0 };
        assert_eq!(image[byte], expected);
    }
}
