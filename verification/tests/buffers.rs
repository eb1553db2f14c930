use sealknot::{CipherText, CipherTextRef, PlainText};

#[test]
fn plaintext_new_len_bytes() {
    let pt = PlainText::new(b"hello".to_vec());
    assert_eq!(pt.len(), 5);
    assert_eq!(pt.as_bytes(), b"hello");
    assert_eq!(pt.into_vec(), b"hello".to_vec());
}

#[test]
fn plaintext_from_vec_drains_source() {
    let mut src = b"abc".to_vec();
    let pt = PlainText::from_vec(&mut src);
    assert!(src.is_empty());
    assert_eq!(pt.as_bytes(), b"abc");
}

#[test]
fn ciphertext_append_moves_bytes() {
    let mut a = CipherText::new(b"one".to_vec());
    let mut b = CipherText::new(b"two".to_vec());
    a.append(&mut b);
    assert_eq!(a.len(), 6);
    assert_eq!(b.len(), 0);
    assert_eq!(a.into_vec(), b"onetwo".to_vec());
}

#[test]
fn ciphertext_from_drains_source() {
    let mut src = CipherText::new(b"xyz".to_vec());
    let copy = CipherText::from(&mut src);
    assert_eq!(src.len(), 0);
    assert_eq!(copy.into_vec(), b"xyz".to_vec());
}

#[test]
fn ciphertext_empty_into_moves_bytes() {
    let mut src = CipherText::new(b"tail".to_vec());
    let mut dst = CipherText::new(b"head-".to_vec());
    src.empty_into(&mut dst);
    assert_eq!(src.len(), 0);
    assert_eq!(dst.into_vec(), b"head-tail".to_vec());
}

#[test]
fn ciphertextref_slice_and_len() {
    let bytes = b"0123456789".to_vec();
    let view = CipherTextRef::new(&bytes);
    assert_eq!(view.len(), 10);
    let mid = view.slice(2, 5);
    assert_eq!(mid.len(), 3);
    assert_eq!(mid.as_bytes(), b"234");
}

#[test]
fn ciphertextref_split_from_right() {
    let bytes = b"abcdefgh".to_vec();
    let view = CipherTextRef::new(&bytes);
    let (head, tail) = view.split_from_right(3);
    assert_eq!(head.as_bytes(), b"abcde");
    assert_eq!(tail.as_bytes(), b"fgh");
    let (all, none) = view.split_from_right(0);
    assert_eq!(all.as_bytes(), b"abcdefgh");
    assert_eq!(none.as_bytes(), b"");
}

#[test]
fn random_pad_upto_extends_and_keeps_prefix() {
    let mut ct = CipherText::new(b"sealed-data".to_vec());
    ct.random_pad_upto(64);
    assert_eq!(ct.len(), 64);
    let bytes = ct.into_vec();
    assert_eq!(&bytes[..11], b"sealed-data");
}

#[test]
fn random_pad_upto_smaller_target_is_noop() {
    let mut ct = CipherText::new(b"0123456789".to_vec());
    ct.random_pad_upto(4);
    assert_eq!(ct.into_vec(), b"0123456789".to_vec());
}

#[test]
fn random_pad_upto_from_empty() {
    let mut ct = CipherText::new(Vec::new());
    ct.random_pad_upto(32);
    assert_eq!(ct.len(), 32);
}
