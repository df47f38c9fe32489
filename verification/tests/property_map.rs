use rust_rocksdb::property_map::{bytes_equal, copy_of_bytes, PropertyMap};

#[test]
fn insert_get_and_replace() {
    let mut m = PropertyMap::new();
    assert!(m.is_empty());
    assert_eq!(m.insert(b"k".to_vec(), b"1".to_vec()), None);
    assert_eq!(m.insert(b"j".to_vec(), b"2".to_vec()), None);
    assert_eq!(m.insert(b"k".to_vec(), b"3".to_vec()), Some(b"1".to_vec()));
    assert_eq!(m.len(), 2);
    assert_eq!(m.get(b"k"), Some(&b"3".to_vec()));
    assert_eq!(m.get(b"j"), Some(&b"2".to_vec()));
    assert_eq!(m.get(b"x"), None);
    assert!(m.contains_key(b"j"));
    assert!(!m.contains_key(b"x"));
    assert_eq!(
        m.as_pairs(),
        &[
            (b"k".to_vec(), b"3".to_vec()),
            (b"j".to_vec(), b"2".to_vec())
        ]
    );
}

#[test]
fn remove_returns_the_value_once() {
    let mut m = PropertyMap::new();
    m.insert(b"a".to_vec(), b"1".to_vec());
    m.insert(b"b".to_vec(), b"2".to_vec());
    m.insert(b"c".to_vec(), b"3".to_vec());
    assert_eq!(m.remove(b"b"), Some(b"2".to_vec()));
    assert_eq!(m.remove(b"b"), None);
    assert_eq!(m.len(), 2);
    assert_eq!(m.get(b"a"), Some(&b"1".to_vec()));
    assert_eq!(m.get(b"c"), Some(&b"3".to_vec()));
}

#[test]
fn empty_and_binary_keys_are_ordinary_keys() {
    let mut m = PropertyMap::new();
    m.insert(Vec::new(), b"empty".to_vec());
    m.insert(vec![0, 255, 0], Vec::new());
    assert_eq!(m.get(b""), Some(&b"empty".to_vec()));
    assert_eq!(m.get(&[0, 255, 0]), Some(&Vec::new()));
    assert_eq!(m.get(&[0, 255]), None);
}

#[test]
fn from_pairs_keeps_the_last_value_and_copy_is_independent() {
    let m = PropertyMap::from_pairs(vec![
        (b"x".to_vec(), b"1".to_vec()),
        (b"y".to_vec(), b"2".to_vec()),
        (b"x".to_vec(), b"3".to_vec()),
    ]);
    assert_eq!(m.len(), 2);
    assert_eq!(m.get(b"x"), Some(&b"3".to_vec()));
    let mut c = m.copy();
    c.insert(b"z".to_vec(), b"4".to_vec());
    assert_eq!(m.len(), 2);
    assert_eq!(c.len(), 3);
    assert_eq!(
        m.into_pairs(),
        vec![(b"x".to_vec(), b"3".to_vec()), (b"y".to_vec(), b"2".to_vec())]
    );
}

#[test]
fn byte_helpers() {
    assert!(bytes_equal(b"abc", b"abc"));
    assert!(!bytes_equal(b"abc", b"abd"));
    assert!(!bytes_equal(b"ab", b"abc"));
    assert!(bytes_equal(b"", b""));
    assert_eq!(copy_of_bytes(b"xyz"), b"xyz".to_vec());
}
