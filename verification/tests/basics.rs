use node_logic::counter::{counter_prefix, Counter};
use node_logic::hash::Hash256;
use node_logic::pvf_error::{InvalidCandidate, ValidationError};
use node_logic::shield_error::{
    lossy, DecryptionError, InnerExtrinsicError, ParsingError, ShieldError, WrapperExtrinsicError,
};
use node_logic::tx_salt::{
    current_tx_order_salt, salted_key_from_tx_hash, set_tx_ordering_salt, TxOrderSalt,
};

fn sample_salt() -> [u8; 32] {
    let mut salt = [0u8; 32];
    for (i, b) in salt.iter_mut().enumerate() {
        *b = (i as u8).wrapping_mul(37).wrapping_add(11);
    }
    salt
}

#[test]
fn salt_starts_at_zero() {
    let store = TxOrderSalt::new();
    assert_eq!(current_tx_order_salt(&store), [0u8; 32]);
}

#[test]
fn salt_reads_back_what_was_set() {
    let mut store = TxOrderSalt::new();
    let salt = sample_salt();
    set_tx_ordering_salt(&mut store, salt);
    assert_eq!(current_tx_order_salt(&store), salt);
    let other = [0xffu8; 32];
    set_tx_ordering_salt(&mut store, other);
    assert_eq!(current_tx_order_salt(&store), other);
}

#[test]
fn salt_lanes_are_little_endian() {
    let mut store = TxOrderSalt::new();
    let mut salt = [0u8; 32];
    salt[0] = 1;
    salt[9] = 2;
    salt[31] = 0x80;
    set_tx_ordering_salt(&mut store, salt);
    assert_eq!(store.lanes, [1, 2 << 8, 0, 0x80u64 << 56]);
}

#[test]
fn salted_key_hashes_salt_then_tx_hash() {
    let mut store = TxOrderSalt::new();
    let salt = sample_salt();
    set_tx_ordering_salt(&mut store, salt);
    let tx_hash = [7u8; 32];
    let mut data = salt.to_vec();
    data.extend_from_slice(&tx_hash);
    let expected = sp_crypto_hashing::blake2_256(&data);
    let key = salted_key_from_tx_hash(&store, &tx_hash);
    assert_eq!(key, expected);
    assert_ne!(key.to_vec(), data[..32].to_vec());
}

#[test]
fn salted_key_depends_on_the_salt() {
    let mut store = TxOrderSalt::new();
    let tx_hash = [3u8; 32];
    let before = salted_key_from_tx_hash(&store, &tx_hash);
    set_tx_ordering_salt(&mut store, sample_salt());
    let after = salted_key_from_tx_hash(&store, &tx_hash);
    assert_ne!(before, after);
}

#[test]
fn counter_hands_out_consecutive_values() {
    let mut counter = Counter(0);
    assert_eq!(counter.inc(), 0);
    assert_eq!(counter.inc(), 1);
    assert_eq!(counter.inc(), 2);
    assert_eq!(counter.0, 3);
}

#[test]
fn counter_prefix_prepends_counter_for() {
    assert_eq!(counter_prefix("Balances"), "CounterForBalances");
    assert_eq!(counter_prefix(""), "CounterFor");
}

#[test]
fn hash_words_are_kept() {
    let h = Hash256::new(1, 2, 3, 4);
    assert_eq!((h.w0, h.w1, h.w2, h.w3), (1, 2, 3, 4));
    assert_ne!(h, Hash256::new(1, 2, 3, 5));
}

#[test]
fn parsing_error_messages() {
    assert_eq!(
        ParsingError::TruncatedKeyHash.message(),
        "ciphertext too short for key hash (need 16 bytes)"
    );
    assert_eq!(
        ParsingError::TruncatedKemLen.message(),
        "ciphertext too short for KEM length field (need 2 bytes)"
    );
    assert_eq!(
        ParsingError::KemLenExceedsRemaining.message(),
        "KEM ciphertext length exceeds remaining data"
    );
    assert_eq!(ParsingError::TruncatedNonce.message(), "ciphertext too short for nonce (need 24 bytes)");
    assert_eq!(ParsingError::MissingAead.message(), "no AEAD ciphertext after nonce");
}

#[test]
fn decryption_error_messages() {
    assert_eq!(
        DecryptionError::InvalidDecapsulationKey.message(),
        "decapsulation key bytes are malformed"
    );
    assert_eq!(
        DecryptionError::InvalidKemCiphertext.message(),
        "KEM ciphertext has wrong length for ML-KEM-768"
    );
    assert_eq!(DecryptionError::DecapsulationFailed.message(), "ML-KEM-768 decapsulation failed");
    assert_eq!(
        DecryptionError::AeadDecryptionFailed.message(),
        "XChaCha20-Poly1305 decryption failed (wrong key or tampered payload)"
    );
    assert_eq!(DecryptionError::EmptyPlaintext.message(), "decrypted plaintext is empty");
}

#[test]
fn wrapper_error_messages_show_text_and_hex() {
    assert_eq!(
        WrapperExtrinsicError::DecodeFailed(b"bad length".to_vec()).message(),
        "SCALE decode failed: bad length"
    );
    assert_eq!(
        WrapperExtrinsicError::CheckFailed(vec![0x01, 0xab, 0x00]).message(),
        "validation check failed (encoded error: 0x01ab00)"
    );
}

#[test]
fn inner_error_messages_show_text_and_hex() {
    assert_eq!(
        InnerExtrinsicError::DecodeFailed(vec![0x68, 0x69, 0xff]).message(),
        "SCALE decode failed: hi\u{FFFD}"
    );
    assert_eq!(
        InnerExtrinsicError::ValidationFailed(vec![0xde, 0xad]).message(),
        "validation failed (encoded error: 0xdead)"
    );
}

#[test]
fn shield_error_wraps_its_parts() {
    let e: ShieldError = ParsingError::MissingAead.into();
    assert_eq!(e, ShieldError::Parsing(ParsingError::MissingAead));
    assert_eq!(e.message(), "ciphertext parsing failed: no AEAD ciphertext after nonce");
    let e: ShieldError = DecryptionError::EmptyPlaintext.into();
    assert_eq!(e.message(), "decryption failed: decrypted plaintext is empty");
    let e: ShieldError = WrapperExtrinsicError::CheckFailed(vec![0x0f]).into();
    assert_eq!(e.message(), "wrapper extrinsic invalid: validation check failed (encoded error: 0x0f)");
    let e: ShieldError = InnerExtrinsicError::DecodeFailed(b"x".to_vec()).into();
    assert_eq!(e.message(), "inner extrinsic invalid: SCALE decode failed: x");
}

#[test]
fn lossy_replaces_invalid_utf8() {
    assert_eq!(lossy(b"plain"), "plain");
    assert_eq!(lossy(&[0xf0, 0x9f, 0x92, 0x96]), "\u{1F496}");
    assert_eq!(lossy(&[0x61, 0xc3]), "a\u{FFFD}");
}

#[test]
fn deterministic_prepare_errors_make_candidate_invalid() {
    let e = ValidationError::from_prepare_error(true, "panic: bad code".to_string(), 7u8);
    assert!(matches!(e, ValidationError::InvalidCandidate(InvalidCandidate::PrepareError(ref m)) if m == "panic: bad code"));
    let e = ValidationError::from_prepare_error(false, "timed out".to_string(), 7u8);
    assert!(matches!(e, ValidationError::InternalError(7)));
    assert!(matches!(ValidationError::<u8>::from_internal(3), ValidationError::InternalError(3)));
}
