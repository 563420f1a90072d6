use aes_gcm::aead::{Aead, KeyInit};
use aes_gcm::{Aes256Gcm, Key, Nonce};
use keeper_secrets::crypto::{CryptoError, CryptoUtils, KEY_LEN, NONCE_LEN, TAG_LEN};

fn key_of(byte: u8) -> Vec<u8> {
    vec![byte; 32]
}

fn zero_key_envelope() -> Vec<u8> {
    let mut envelope = vec![0u8; 12];
    envelope.extend_from_slice(&[
        0xce, 0xa7, 0x40, 0x3d, 0x4d, 0x60, 0x6b, 0x6e, 0x07, 0x4e, 0xc5, 0xd3, 0xba, 0xf3, 0x9d,
        0x18, 0xd0, 0xd1, 0xc8, 0xa7, 0x99, 0x99, 0x6b, 0xf0, 0x26, 0x5b, 0x98, 0xb5, 0xd4, 0x8a,
        0xb9, 0x19,
    ]);
    envelope
}

#[test]
fn lengths_are_those_of_aes_256_gcm() {
    assert_eq!(KEY_LEN, 32);
    assert_eq!(NONCE_LEN, 12);
    assert_eq!(TAG_LEN, 16);
}

#[test]
fn round_trip_returns_the_plaintext() {
    let key = key_of(7);
    let sealed = CryptoUtils::encrypt_aes(b"attack at dawn", &key).unwrap();
    assert_eq!(sealed.len(), 14 + 12 + 16);
    assert_eq!(CryptoUtils::decrypt_aes(&sealed, &key), Ok(b"attack at dawn".to_vec()));
}

#[test]
fn round_trip_holds_for_many_lengths() {
    let key = key_of(0x5a);
    for len in 0..70usize {
        let plaintext: Vec<u8> = (0..len).map(|i| (i * 7 + 3) as u8).collect();
        let sealed = CryptoUtils::encrypt_aes(&plaintext, &key).unwrap();
        assert_eq!(sealed.len(), len + 28);
        assert_eq!(CryptoUtils::decrypt_aes(&sealed, &key), Ok(plaintext));
    }
}

#[test]
fn known_answer_for_the_zero_key() {
    assert_eq!(CryptoUtils::decrypt_aes(&zero_key_envelope(), &key_of(0)), Ok(vec![0u8; 16]));
}

#[test]
fn sealed_part_is_what_the_cipher_gives_for_the_nonce_in_front() {
    let key = key_of(9);
    let envelope = CryptoUtils::encrypt_aes(b"some secret", &key).unwrap();
    let cipher = Aes256Gcm::new(Key::<Aes256Gcm>::from_slice(&key));
    let expected = cipher.encrypt(Nonce::from_slice(&envelope[..12]), &b"some secret"[..]).unwrap();
    assert_eq!(&envelope[12..], &expected[..]);
}

#[test]
fn nonce_differs_from_call_to_call() {
    let key = key_of(1);
    let first = CryptoUtils::encrypt_aes(b"same", &key).unwrap();
    let second = CryptoUtils::encrypt_aes(b"same", &key).unwrap();
    assert_ne!(first[..12], second[..12]);
    assert_ne!(first, second);
}

#[test]
fn flipping_any_bit_makes_decryption_fail() {
    let key = key_of(3);
    let sealed = CryptoUtils::encrypt_aes(b"do not touch", &key).unwrap();
    for position in 0..sealed.len() {
        for bit in 0..8 {
            let mut tampered = sealed.clone();
            tampered[position] ^= 1 << bit;
            assert_eq!(
                CryptoUtils::decrypt_aes(&tampered, &key),
                Err(CryptoError::DecryptionFailed)
            );
        }
    }
}

#[test]
fn flipping_any_bit_of_the_known_envelope_fails() {
    let envelope = zero_key_envelope();
    for position in 0..envelope.len() {
        let mut tampered = envelope.clone();
        tampered[position] ^= 0x80;
        assert_eq!(
            CryptoUtils::decrypt_aes(&tampered, &key_of(0)),
            Err(CryptoError::DecryptionFailed)
        );
    }
}

#[test]
fn another_key_does_not_open_the_envelope() {
    let sealed = CryptoUtils::encrypt_aes(b"for one key only", &key_of(1)).unwrap();
    assert_eq!(CryptoUtils::decrypt_aes(&sealed, &key_of(2)), Err(CryptoError::DecryptionFailed));
}

#[test]
fn decrypt_refuses_every_key_that_is_not_32_bytes() {
    let envelope = zero_key_envelope();
    for len in 0..80usize {
        if len != 32 {
            let key = vec![0u8; len];
            assert_eq!(
                CryptoUtils::decrypt_aes(&envelope, &key),
                Err(CryptoError::InvalidKeyLength)
            );
        }
    }
}

#[test]
fn key_length_is_checked_before_the_data() {
    assert_eq!(CryptoUtils::decrypt_aes(&[], &[1, 2, 3]), Err(CryptoError::InvalidKeyLength));
}

#[test]
fn encrypt_refuses_every_key_that_is_not_32_bytes() {
    for len in [0usize, 1, 16, 24, 31, 33, 64] {
        let key = vec![0u8; len];
        assert_eq!(CryptoUtils::encrypt_aes(b"x", &key), Err(CryptoError::InvalidKeyLength));
    }
}

#[test]
fn input_without_room_for_a_nonce_is_malformed() {
    for len in 0..12usize {
        let data = vec![0u8; len];
        assert_eq!(
            CryptoUtils::decrypt_aes(&data, &key_of(0)),
            Err(CryptoError::MalformedCiphertext)
        );
    }
}

#[test]
fn input_without_room_for_a_tag_fails_to_decrypt() {
    for len in 12..28usize {
        let data = vec![0u8; len];
        assert_eq!(
            CryptoUtils::decrypt_aes(&data, &key_of(0)),
            Err(CryptoError::DecryptionFailed)
        );
    }
}

#[test]
fn empty_plaintext_round_trips() {
    let key = key_of(0xff);
    let sealed = CryptoUtils::encrypt_aes(&[], &key).unwrap();
    assert_eq!(sealed.len(), 28);
    assert_eq!(CryptoUtils::decrypt_aes(&sealed, &key), Ok(vec![]));
}

#[test]
fn opened_maps_a_failed_tag_to_decryption_failed() {
    assert_eq!(CryptoUtils::opened(None), Err(CryptoError::DecryptionFailed));
    assert_eq!(CryptoUtils::opened(Some(vec![1, 2, 3])), Ok(vec![1, 2, 3]));
}
