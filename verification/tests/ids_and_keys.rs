use mallet::bytes::{compare_key_bytes, KeyOrder};
use mallet::id::{Id, IdGen};
use mallet::store_keys::{snapshot_state_key, NodeKind, CONTENT_KEY, STATE_KEY};

#[test]
fn id_bytes_are_big_endian() {
    let id = Id(0x0102_0304_0506_0708_090a_0b0c_0d0e_0f10);
    assert_eq!(
        id.to_bytes(),
        [1, 2, 3, 4, 5, 6, 7, 8, 9, 10, 11, 12, 13, 14, 15, 16]
    );
}

#[test]
fn id_bytes_roundtrip() {
    for v in [0u128, 1, 255, 256, u64::MAX as u128, u128::MAX, 0xdead_beef << 64] {
        let id = Id(v);
        assert_eq!(Id::from_bytes(&id.to_bytes()), id);
    }
}

#[test]
fn id_from_bytes_reads_big_endian() {
    let mut bytes = [0u8; 16];
    bytes[15] = 1;
    bytes[14] = 2;
    assert_eq!(Id::from_bytes(&bytes), Id(0x0201));
}

#[test]
fn id_key_order_follows_id_order() {
    let pairs = [(255u128, 256u128), (1, 1 << 120), (7, 7), (u128::MAX, 0)];
    for (a, b) in pairs {
        let expected = if a < b {
            KeyOrder::Less
        } else if a == b {
            KeyOrder::Equal
        } else {
            KeyOrder::Greater
        };
        assert_eq!(
            compare_key_bytes(&Id(a).to_bytes(), &Id(b).to_bytes()),
            expected
        );
    }
}

#[test]
fn byte_keys_compare_lexicographically() {
    assert_eq!(compare_key_bytes(&[1, 2], &[1, 2, 3]), KeyOrder::Less);
    assert_eq!(compare_key_bytes(&[1, 2, 3], &[1, 2]), KeyOrder::Greater);
    assert_eq!(compare_key_bytes(&[2], &[1, 9]), KeyOrder::Greater);
    assert_eq!(compare_key_bytes(&[1, 9], &[2]), KeyOrder::Less);
    assert_eq!(compare_key_bytes(&[], &[]), KeyOrder::Equal);
    assert_eq!(compare_key_bytes(&[4, 5, 6], &[4, 5, 6]), KeyOrder::Equal);
}

#[test]
fn generated_ids_increase() {
    let mut gen = IdGen::new();
    let a = gen.generate().unwrap();
    let b = gen.generate().unwrap();
    let c = gen.generate().unwrap();
    assert!(a < b);
    assert!(b < c);
}

#[test]
fn content_tree_names() {
    assert_eq!(NodeKind::Brush.to_node_content_key(), vec![CONTENT_KEY, 0]);
    assert_eq!(NodeKind::Light.to_node_content_key(), vec![CONTENT_KEY, 1]);
}

#[test]
fn snapshot_tree_names() {
    let id = Id(0x0102_0304_0506_0708_090a_0b0c_0d0e_0f10);
    let key = snapshot_state_key(&id);
    assert_eq!(key.len(), 17);
    assert_eq!(key[0], STATE_KEY);
    assert_eq!(&key[1..], &id.to_bytes()[..]);
    assert_ne!(snapshot_state_key(&Id(1)), snapshot_state_key(&Id(2)));
}
