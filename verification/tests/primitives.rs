use sealknot::desc::{KEYBYTES, MACBYTES, NONCEBYTES};
use sealknot::{CryptoError, Nonce, PlainText, SecretKey};

#[test]
fn seal_is_deterministic_in_key_nonce_message() {
    let _ = sodiumoxide::init();
    let key = SecretKey::from_slice(&[1u8; KEYBYTES]).unwrap();
    let nonce = Nonce::from_slice(&[2u8; NONCEBYTES]).unwrap();
    let a = PlainText::new(b"same message".to_vec()).to_ciphertext(&nonce, &key);
    let b = PlainText::new(b"same message".to_vec()).to_ciphertext(&nonce, &key);
    assert_eq!(a.into_vec(), b.into_vec());
}

#[test]
fn seal_adds_exactly_the_tag() {
    let _ = sodiumoxide::init();
    let key = SecretKey::from_slice(&[1u8; KEYBYTES]).unwrap();
    let nonce = Nonce::from_slice(&[2u8; NONCEBYTES]).unwrap();
    let ct = PlainText::new(b"sized".to_vec()).to_ciphertext(&nonce, &key);
    assert_eq!(ct.len(), 5 + MACBYTES);
    let empty = PlainText::new(Vec::new()).to_ciphertext(&nonce, &key);
    assert_eq!(empty.len(), MACBYTES);
}

#[test]
fn open_inverts_seal_and_rejects_other_nonce() {
    let _ = sodiumoxide::init();
    let key = SecretKey::from_slice(&[1u8; KEYBYTES]).unwrap();
    let nonce = Nonce::from_slice(&[2u8; NONCEBYTES]).unwrap();
    let ct = PlainText::new(b"round trip".to_vec()).to_ciphertext(&nonce, &key);
    let bytes = ct.into_vec();
    let view = sealknot::CipherTextRef::new(&bytes);
    let pt = view.to_plaintext(&nonce, &key).unwrap();
    assert_eq!(pt.as_bytes(), b"round trip");

    let other = Nonce::from_slice(&[9u8; NONCEBYTES]).unwrap();
    assert_eq!(
        view.to_plaintext(&other, &key).err(),
        Some(CryptoError::Authentication)
    );
}
