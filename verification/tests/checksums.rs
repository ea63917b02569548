use mallet::checksum::{Checksum, Object};

fn hex(bytes: &[u8]) -> String {
    bytes.iter().map(|b| format!("{:02x}", b)).collect()
}

#[test]
fn checksum_of_empty_input_is_blake3_digest() {
    let c = Object::checksum(&[]);
    assert_eq!(
        hex(&c.as_bytes()),
        "af1349b9f5f9a1a6a0404dea36dcc9499bcb25c9adc112b7cc9a93cae41f3262"
    );
}

#[test]
fn checksum_of_abc_is_blake3_digest() {
    let c = Object::checksum(b"abc");
    assert_eq!(
        hex(&c.as_bytes()),
        "6437b3ac38465133ffb63b75273a8db548c558465d79db03fd359c6cd5bd9d85"
    );
}

#[test]
fn same_bytes_same_checksum() {
    let (c1, o1) = Object::new_raw(vec![1, 2, 3]);
    let (c2, _) = Object::new_raw(vec![1, 2, 3]);
    let (c3, _) = Object::new_raw(vec![1, 2, 4]);
    assert_eq!(c1, c2);
    assert_ne!(c1, c3);
    assert_eq!(o1.data, vec![1, 2, 3]);
}

#[test]
fn nil_checksum_is_zero() {
    assert_eq!(Checksum::nil().as_bytes(), [0u8; 32]);
    assert_ne!(Checksum::nil(), Object::checksum(&[]));
}

#[test]
fn checksum_bytes_roundtrip() {
    let c = Object::checksum(b"some contents");
    let back = Checksum::from_bytes(&c.as_bytes());
    assert_eq!(back, c);
}

#[test]
fn object_bytes_roundtrip() {
    let o = Object::from_bytes(&[9, 8, 7]);
    assert_eq!(o.as_bytes(), vec![9, 8, 7]);
}
