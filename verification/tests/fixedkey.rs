use sealknot::desc::{fixed_key_overhead, FIXED_KEY_OVERHEAD, KEYBYTES};
use sealknot::{CipherText, CipherTextRef, CryptoError, FixedKey, PlainText, SecretKey};

fn shared_key() -> FixedKey {
    let bytes = [7u8; KEYBYTES];
    FixedKey::new(SecretKey::from_slice(&bytes).unwrap())
}

#[test]
fn fixedkey_round_trip_one_segment() {
    let _ = sodiumoxide::init();
    let fk = shared_key();
    let ct = fk.seal(PlainText::new(b"stream segment".to_vec()));
    assert_eq!(ct.len(), 14 + FIXED_KEY_OVERHEAD);
    let bytes = ct.into_vec();
    let (rest, pt) = fk.unseal(CipherTextRef::new(&bytes)).unwrap();
    assert_eq!(pt.as_bytes(), b"stream segment");
    assert_eq!(rest.len(), 0);
}

#[test]
fn fixedkey_minimal_segment_round_trips() {
    // The smallest plaintext whose body still covers a whole knot nonce.
    let _ = sodiumoxide::init();
    let fk = shared_key();
    let ct = fk.seal(PlainText::new(b"123456789".to_vec()));
    assert_eq!(ct.len(), 9 + fixed_key_overhead());
    let bytes = ct.into_vec();
    let (rest, pt) = fk.unseal(CipherTextRef::new(&bytes)).unwrap();
    assert_eq!(pt.as_bytes(), b"123456789");
    assert_eq!(rest.len(), 0);
}

#[test]
fn fixedkey_three_segments_untie_in_reverse() {
    let _ = sodiumoxide::init();
    let fk = shared_key();
    let mut buffer = CipherText::new(Vec::new());
    for segment in [&b"first segment"[..], &b"second segment"[..], &b"third segment"[..]] {
        let mut ct = fk.seal(PlainText::new(segment.to_vec()));
        buffer.append(&mut ct);
    }
    let bytes = buffer.into_vec();

    let view = CipherTextRef::new(&bytes);
    let (view, third) = fk.unseal(view).unwrap();
    assert_eq!(third.as_bytes(), b"third segment");
    let (view, second) = fk.unseal(view).unwrap();
    assert_eq!(second.as_bytes(), b"second segment");
    let (view, first) = fk.unseal(view).unwrap();
    assert_eq!(first.as_bytes(), b"first segment");

    // The chain is exhausted: a fourth untie has too few bytes left.
    assert_eq!(view.len(), 0);
    let r = fk.unseal(view);
    assert_eq!(r.err(), Some(CryptoError::Underrun));
}

#[test]
fn fixedkey_unseal_short_buffer_underruns() {
    let _ = sodiumoxide::init();
    let fk = shared_key();
    let empty: Vec<u8> = Vec::new();
    assert_eq!(
        fk.unseal(CipherTextRef::new(&empty)).err(),
        Some(CryptoError::Underrun)
    );
    let short = vec![0u8; 71];
    assert_eq!(
        fk.unseal(CipherTextRef::new(&short)).err(),
        Some(CryptoError::Underrun)
    );
}

#[test]
fn fixedkey_single_bit_flips_fail_authentication() {
    let _ = sodiumoxide::init();
    let fk = shared_key();
    let ct = fk.seal(PlainText::new(b"tamper target".to_vec()));
    let mut bytes = ct.into_vec();
    for i in 0..bytes.len() {
        for bit in 0..8 {
            bytes[i] ^= 1 << bit;
            let r = fk.unseal(CipherTextRef::new(&bytes));
            assert_eq!(r.err(), Some(CryptoError::Authentication));
            bytes[i] ^= 1 << bit;
        }
    }
}

#[test]
fn fixedkey_wrong_key_fails_authentication() {
    let _ = sodiumoxide::init();
    let fk = shared_key();
    let other = FixedKey::new(SecretKey::from_slice(&[8u8; KEYBYTES]).unwrap());
    let ct = fk.seal(PlainText::new(b"keyed segment".to_vec()));
    let bytes = ct.into_vec();
    let r = other.unseal(CipherTextRef::new(&bytes));
    assert_eq!(r.err(), Some(CryptoError::Authentication));
}

#[test]
fn padding_does_not_disturb_segments() {
    let _ = sodiumoxide::init();
    let fk = shared_key();
    let mut buffer = CipherText::new(Vec::new());
    let mut first = fk.seal(PlainText::new(b"padded one".to_vec()));
    buffer.append(&mut first);
    let mut second = fk.seal(PlainText::new(b"padded two".to_vec()));
    buffer.append(&mut second);
    let real_len = buffer.len();

    buffer.random_pad_upto(real_len + 100);
    assert_eq!(buffer.len(), real_len + 100);
    let bytes = buffer.into_vec();

    // The padding is never interpreted as a segment: untying starts from a
    // view that covers exactly the sealed bytes.
    let view = CipherTextRef::new(&bytes).slice(0, real_len);
    let (view, second) = fk.unseal(view).unwrap();
    assert_eq!(second.as_bytes(), b"padded two");
    let (view, first) = fk.unseal(view).unwrap();
    assert_eq!(first.as_bytes(), b"padded one");
    assert_eq!(view.len(), 0);

    // Untying the padded tail itself is refused: the filler authenticates
    // as nothing.
    let padded_view = CipherTextRef::new(&bytes);
    assert!(fk.unseal(padded_view).is_err());
}
