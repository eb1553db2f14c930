use sealknot::desc::{
    fixed_key_overhead, footer_cipher_bytes, footer_plain_bytes, KEYBYTES, MACBYTES, NONCEBYTES,
};
use sealknot::sodium::static_nonce;
use sealknot::{Nonce, SecretKey};

#[test]
fn footer_sizes_are_fixed_constants() {
    assert_eq!(footer_plain_bytes(), NONCEBYTES + 8);
    assert_eq!(footer_plain_bytes(), 32);
    assert_eq!(footer_cipher_bytes(), footer_plain_bytes() + MACBYTES);
    assert_eq!(footer_cipher_bytes(), 48);
    assert_eq!(fixed_key_overhead(), MACBYTES + footer_cipher_bytes());
    assert_eq!(fixed_key_overhead(), 64);
}

#[test]
fn static_nonce_is_all_ones() {
    let n = static_nonce();
    assert_eq!(n.as_bytes(), &[255u8; NONCEBYTES][..]);
    assert_eq!(n.to_vec(), vec![255u8; NONCEBYTES]);
}

#[test]
fn key_from_slice_checks_length() {
    assert!(SecretKey::from_slice(&[0u8; KEYBYTES]).is_some());
    assert!(SecretKey::from_slice(&[0u8; 31]).is_none());
    assert!(SecretKey::from_slice(&[]).is_none());
}

#[test]
fn nonce_from_slice_checks_length() {
    let n = Nonce::from_slice(&[3u8; NONCEBYTES]).unwrap();
    assert_eq!(n.as_bytes(), &[3u8; NONCEBYTES][..]);
    assert!(Nonce::from_slice(&[3u8; 23]).is_none());
    assert!(Nonce::from_slice(&[]).is_none());
}
