//! Error types for the MEV Shield, and their human-readable messages.
use vstd::prelude::*;

verus! {

/// Top-level error returned when processing a shielded transaction fails.
#[derive(Debug, Clone, PartialEq, Eq)]
pub enum ShieldError {
    /// Failed to parse the ciphertext envelope.
    Parsing(ParsingError),
    /// The wrapper extrinsic itself is invalid.
    WrapperExtrinsic(WrapperExtrinsicError),
    /// Decryption of the shielded payload failed.
    Decryption(DecryptionError),
    /// The decrypted inner extrinsic is invalid.
    InnerExtrinsic(InnerExtrinsicError),
}

/// Errors when parsing the ciphertext envelope (`key_hash || kem_len || kem_ct || nonce ||
/// aead_ct`).
#[derive(Debug, Clone, Copy, PartialEq, Eq)]
pub enum ParsingError {
    /// Ciphertext is too short to contain the key hash (16 bytes).
    TruncatedKeyHash,
    /// Ciphertext is too short to contain the KEM ciphertext length field (2 bytes).
    TruncatedKemLen,
    /// KEM ciphertext length field exceeds the remaining ciphertext bytes.
    KemLenExceedsRemaining,
    /// Ciphertext is too short to contain the nonce (24 bytes).
    TruncatedNonce,
    /// Ciphertext has no AEAD payload after the nonce.
    MissingAead,
}

/// Errors when validating the wrapper (`submit_encrypted`) extrinsic.
#[derive(Debug, Clone, PartialEq, Eq)]
pub enum WrapperExtrinsicError {
    /// The wrapper extrinsic failed to decode (e.g. exceeded nesting depth).
    /// Contains the debug representation of the decode error.
    DecodeFailed(Vec<u8>),
    /// The wrapper extrinsic failed validation (e.g. bad signature, AncientBirthBlock).
    /// Contains the SCALE-encoded `TransactionValidityError`.
    CheckFailed(Vec<u8>),
}

/// Errors during ML-KEM-768 + XChaCha20-Poly1305 decryption.
#[derive(Debug, Clone, Copy, PartialEq, Eq)]
pub enum DecryptionError {
    /// The decapsulation key bytes are malformed.
    InvalidDecapsulationKey,
    /// The KEM ciphertext is malformed (wrong length for ML-KEM-768).
    InvalidKemCiphertext,
    /// ML-KEM-768 decapsulation failed.
    DecapsulationFailed,
    /// XChaCha20-Poly1305 decryption failed (wrong key or tampered payload).
    AeadDecryptionFailed,
    /// Decrypted plaintext is empty.
    EmptyPlaintext,
}

/// Errors when processing the decrypted inner extrinsic.
#[derive(Debug, Clone, PartialEq, Eq)]
pub enum InnerExtrinsicError {
    /// Decrypted bytes are not a valid SCALE-encoded extrinsic.
    /// Contains the debug representation of the decode error.
    DecodeFailed(Vec<u8>),
    /// The inner extrinsic failed validation (e.g. AncientBirthBlock, BadProof).
    /// Contains the SCALE-encoded `TransactionValidityError`.
    ValidationFailed(Vec<u8>),
}

impl From<ParsingError> for ShieldError {
    fn from(e: ParsingError) -> (r: Self) {
        ShieldError::Parsing(e)
    }
}

impl vstd::std_specs::convert::FromSpecImpl<ParsingError> for ShieldError {
    open spec fn obeys_from_spec() -> bool {
        true
    }

    open spec fn from_spec(e: ParsingError) -> ShieldError {
        ShieldError::Parsing(e)
    }
}

impl From<WrapperExtrinsicError> for ShieldError {
    fn from(e: WrapperExtrinsicError) -> (r: Self) {
        ShieldError::WrapperExtrinsic(e)
    }
}

impl vstd::std_specs::convert::FromSpecImpl<WrapperExtrinsicError> for ShieldError {
    open spec fn obeys_from_spec() -> bool {
        true
    }

    open spec fn from_spec(e: WrapperExtrinsicError) -> ShieldError {
        ShieldError::WrapperExtrinsic(e)
    }
}

impl From<DecryptionError> for ShieldError {
    fn from(e: DecryptionError) -> (r: Self) {
        ShieldError::Decryption(e)
    }
}

impl vstd::std_specs::convert::FromSpecImpl<DecryptionError> for ShieldError {
    open spec fn obeys_from_spec() -> bool {
        true
    }

    open spec fn from_spec(e: DecryptionError) -> ShieldError {
        ShieldError::Decryption(e)
    }
}

impl From<InnerExtrinsicError> for ShieldError {
    fn from(e: InnerExtrinsicError) -> (r: Self) {
        ShieldError::InnerExtrinsic(e)
    }
}

impl vstd::std_specs::convert::FromSpecImpl<InnerExtrinsicError> for ShieldError {
    open spec fn obeys_from_spec() -> bool {
        true
    }

    open spec fn from_spec(e: InnerExtrinsicError) -> ShieldError {
        ShieldError::InnerExtrinsic(e)
    }
}

/// The lower-case hexadecimal digits.
pub open spec fn hex_digits() -> Seq<char> {
    seq!['0', '1', '2', '3', '4', '5', '6', '7', '8', '9', 'a', 'b', 'c', 'd', 'e', 'f']
}

/// `bytes` written as two lower-case hexadecimal digits each.
pub open spec fn hex_text(bytes: Seq<u8>) -> Seq<char>
    decreases bytes.len(),
{
    if bytes.len() == 0 {
        Seq::empty()
    } else {
        hex_text(bytes.drop_last()) + seq![
            hex_digits()[(bytes.last() / 16) as int],
            hex_digits()[(bytes.last() % 16) as int],
        ]
    }
}

/// The text that `String::from_utf8_lossy` makes of `bytes`.
pub uninterp spec fn utf8_lossy_text(bytes: Seq<u8>) -> Seq<char>;

/// `String::from_utf8_lossy(bytes).into_owned()`: the bytes decoded as UTF-8, with each invalid
/// sequence replaced by U+FFFD. The contract names the result, and states what std's
/// documentation gives for bytes that are all ASCII: one character per byte.
#[verifier::external_body]
pub fn lossy(bytes: &[u8]) -> (r: String)
    ensures
        r@ == utf8_lossy_text(bytes@),
        (forall|i: int| 0 <= i < bytes@.len() ==> bytes@[i] < 128) ==> r@ == Seq::new(
            bytes@.len(),
            |i: int| bytes@[i] as char,
        ),
{
    String::from_utf8_lossy(bytes).into_owned()
}

/// The hexadecimal digit for `n`.
fn hex_digit(n: u8) -> (s: &'static str)
    requires
        n < 16,
    ensures
        s@ == seq![hex_digits()[n as int]],
{
    match n {
        0 => {
            proof {
                reveal_strlit("0");
            }
            "0"
        },
        1 => {
            proof {
                reveal_strlit("1");
            }
            "1"
        },
        2 => {
            proof {
                reveal_strlit("2");
            }
            "2"
        },
        3 => {
            proof {
                reveal_strlit("3");
            }
            "3"
        },
        4 => {
            proof {
                reveal_strlit("4");
            }
            "4"
        },
        5 => {
            proof {
                reveal_strlit("5");
            }
            "5"
        },
        6 => {
            proof {
                reveal_strlit("6");
            }
            "6"
        },
        7 => {
            proof {
                reveal_strlit("7");
            }
            "7"
        },
        8 => {
            proof {
                reveal_strlit("8");
            }
            "8"
        },
        9 => {
            proof {
                reveal_strlit("9");
            }
            "9"
        },
        10 => {
            proof {
                reveal_strlit("a");
            }
            "a"
        },
        11 => {
            proof {
                reveal_strlit("b");
            }
            "b"
        },
        12 => {
            proof {
                reveal_strlit("c");
            }
            "c"
        },
        13 => {
            proof {
                reveal_strlit("d");
            }
            "d"
        },
        14 => {
            proof {
                reveal_strlit("e");
            }
            "e"
        },
        _ => {
            proof {
                reveal_strlit("f");
            }
            "f"
        },
    }
}

/// Append `bytes` as lower-case hexadecimal, two digits per byte.
fn append_hex(out: &mut String, bytes: &Vec<u8>)
    ensures
        final(out)@ == old(out)@ + hex_text(bytes@),
{
    let ghost start = out@;
    let mut i: usize = 0;
    while i < bytes.len()
        invariant
            i <= bytes@.len(),
            out@ == start + hex_text(bytes@.take(i as int)),
        decreases bytes@.len() - i,
    {
        let b = bytes[i];
        out.append(hex_digit(b / 16));
        out.append(hex_digit(b % 16));
        proof {
            assert(bytes@.take(i + 1).drop_last() =~= bytes@.take(i as int));
            assert(bytes@.take(i + 1).last() == b);
        }
        i = i + 1;
        proof {
            assert(out@ =~= start + hex_text(bytes@.take(i as int)));
        }
    }
    proof {
        assert(bytes@.take(i as int) =~= bytes@);
    }
}

/// The message of a parsing error.
pub open spec fn parsing_text(e: ParsingError) -> Seq<char> {
    match e {
        ParsingError::TruncatedKeyHash => "ciphertext too short for key hash (need 16 bytes)"@,
        ParsingError::TruncatedKemLen =>
            "ciphertext too short for KEM length field (need 2 bytes)"@,
        ParsingError::KemLenExceedsRemaining => "KEM ciphertext length exceeds remaining data"@,
        ParsingError::TruncatedNonce => "ciphertext too short for nonce (need 24 bytes)"@,
        ParsingError::MissingAead => "no AEAD ciphertext after nonce"@,
    }
}

/// The message of a wrapper extrinsic error.
pub open spec fn wrapper_text(e: WrapperExtrinsicError) -> Seq<char> {
    match e {
        WrapperExtrinsicError::DecodeFailed(msg) => "SCALE decode failed: "@ + utf8_lossy_text(
            msg@,
        ),
        WrapperExtrinsicError::CheckFailed(encoded) => "validation check failed (encoded error: 0x"@
            + hex_text(encoded@) + ")"@,
    }
}

/// The message of a decryption error.
pub open spec fn decryption_text(e: DecryptionError) -> Seq<char> {
    match e {
        DecryptionError::InvalidDecapsulationKey => "decapsulation key bytes are malformed"@,
        DecryptionError::InvalidKemCiphertext => "KEM ciphertext has wrong length for ML-KEM-768"@,
        DecryptionError::DecapsulationFailed => "ML-KEM-768 decapsulation failed"@,
        DecryptionError::AeadDecryptionFailed =>
            "XChaCha20-Poly1305 decryption failed (wrong key or tampered payload)"@,
        DecryptionError::EmptyPlaintext => "decrypted plaintext is empty"@,
    }
}

/// The message of an inner extrinsic error.
pub open spec fn inner_text(e: InnerExtrinsicError) -> Seq<char> {
    match e {
        InnerExtrinsicError::DecodeFailed(msg) => "SCALE decode failed: "@ + utf8_lossy_text(
            msg@,
        ),
        InnerExtrinsicError::ValidationFailed(encoded) => "validation failed (encoded error: 0x"@
            + hex_text(encoded@) + ")"@,
    }
}

/// The message of a shield error.
pub open spec fn shield_text(e: ShieldError) -> Seq<char> {
    match e {
        ShieldError::Parsing(inner) => "ciphertext parsing failed: "@ + parsing_text(inner),
        ShieldError::WrapperExtrinsic(inner) => "wrapper extrinsic invalid: "@ + wrapper_text(
            inner,
        ),
        ShieldError::Decryption(inner) => "decryption failed: "@ + decryption_text(inner),
        ShieldError::InnerExtrinsic(inner) => "inner extrinsic invalid: "@ + inner_text(inner),
    }
}

impl ParsingError {
    /// The human-readable message of the error.
    pub fn message(&self) -> (r: String)
        ensures
            r@ == parsing_text(*self),
    {
        match self {
            ParsingError::TruncatedKeyHash => String::from_str(
                "ciphertext too short for key hash (need 16 bytes)",
            ),
            ParsingError::TruncatedKemLen => String::from_str(
                "ciphertext too short for KEM length field (need 2 bytes)",
            ),
            ParsingError::KemLenExceedsRemaining => String::from_str(
                "KEM ciphertext length exceeds remaining data",
            ),
            ParsingError::TruncatedNonce => String::from_str(
                "ciphertext too short for nonce (need 24 bytes)",
            ),
            ParsingError::MissingAead => String::from_str("no AEAD ciphertext after nonce"),
        }
    }
}

impl WrapperExtrinsicError {
    /// The human-readable message of the error.
    pub fn message(&self) -> (r: String)
        ensures
            r@ == wrapper_text(*self),
    {
        match self {
            WrapperExtrinsicError::DecodeFailed(msg) => {
                let text = lossy(msg.as_slice());
                String::from_str("SCALE decode failed: ").concat(text.as_str())
            },
            WrapperExtrinsicError::CheckFailed(encoded) => {
                let mut out = String::from_str("validation check failed (encoded error: 0x");
                append_hex(&mut out, encoded);
                out.append(")");
                out
            },
        }
    }
}

impl DecryptionError {
    /// The human-readable message of the error.
    pub fn message(&self) -> (r: String)
        ensures
            r@ == decryption_text(*self),
    {
        match self {
            DecryptionError::InvalidDecapsulationKey => String::from_str(
                "decapsulation key bytes are malformed",
            ),
            DecryptionError::InvalidKemCiphertext => String::from_str(
                "KEM ciphertext has wrong length for ML-KEM-768",
            ),
            DecryptionError::DecapsulationFailed => String::from_str(
                "ML-KEM-768 decapsulation failed",
            ),
            DecryptionError::AeadDecryptionFailed => String::from_str(
                "XChaCha20-Poly1305 decryption failed (wrong key or tampered payload)",
            ),
            DecryptionError::EmptyPlaintext => String::from_str("decrypted plaintext is empty"),
        }
    }
}

impl InnerExtrinsicError {
    /// The human-readable message of the error.
    pub fn message(&self) -> (r: String)
        ensures
            r@ == inner_text(*self),
    {
        match self {
            InnerExtrinsicError::DecodeFailed(msg) => {
                let text = lossy(msg.as_slice());
                String::from_str("SCALE decode failed: ").concat(text.as_str())
            },
            InnerExtrinsicError::ValidationFailed(encoded) => {
                let mut out = String::from_str("validation failed (encoded error: 0x");
                append_hex(&mut out, encoded);
                out.append(")");
                out
            },
        }
    }
}

impl ShieldError {
    /// The human-readable message of the error.
    pub fn message(&self) -> (r: String)
        ensures
            r@ == shield_text(*self),
    {
        match self {
            ShieldError::Parsing(e) => String::from_str("ciphertext parsing failed: ").concat(
                e.message().as_str(),
            ),
            ShieldError::WrapperExtrinsic(e) => String::from_str(
                "wrapper extrinsic invalid: ",
            ).concat(e.message().as_str()),
            ShieldError::Decryption(e) => String::from_str("decryption failed: ").concat(
                e.message().as_str(),
            ),
            ShieldError::InnerExtrinsic(e) => String::from_str("inner extrinsic invalid: ").concat(
                e.message().as_str(),
            ),
        }
    }
}

} // verus!
