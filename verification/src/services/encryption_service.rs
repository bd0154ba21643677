//! The credential vault: account secrets sealed with AES-256-GCM under one
//! key that is handed over at construction and never changes.

use vstd::prelude::*;
use vstd::utf8::{decode_utf8, encode_utf8, encode_utf8_decode_utf8, encode_utf8_valid_utf8, valid_utf8};

verus! {

/// Why the vault refused.
#[derive(Debug, Clone, Copy, PartialEq, Eq, Structural)]
pub enum VaultError {
    /// The key is not 64 hexadecimal digits.
    InvalidKey,
    /// The system had no random bytes for a nonce.
    RandomUnavailable,
    /// The cipher refused to seal the plaintext.
    EncryptionFailed,
    /// The ciphertext or the nonce is not base64.
    Base64Decode,
    /// The nonce is not 96 bits long.
    InvalidNonce,
    /// The integrity tag does not match: wrong key, wrong nonce, or altered
    /// ciphertext.
    DecryptionFailed,
    /// The opened bytes are not UTF-8 text.
    InvalidUtf8,
}

impl VaultError {
    /// The report of each error in words.
    pub open spec fn message_spec(&self) -> Seq<char> {
        match self {
            VaultError::InvalidKey => "Invalid encryption key"@,
            VaultError::RandomUnavailable => "Failed to generate nonce"@,
            VaultError::EncryptionFailed => "Encryption failed"@,
            VaultError::Base64Decode => "Base64 decode error"@,
            VaultError::InvalidNonce => "Invalid nonce"@,
            VaultError::DecryptionFailed => "Decryption failed"@,
            VaultError::InvalidUtf8 => "UTF-8 error"@,
        }
    }

    /// The report of the error in words. It never holds a secret.
    pub fn message(&self) -> (r: &'static str)
        ensures
            r@ == self.message_spec(),
    {
        match self {
            VaultError::InvalidKey => "Invalid encryption key",
            VaultError::RandomUnavailable => "Failed to generate nonce",
            VaultError::EncryptionFailed => "Encryption failed",
            VaultError::Base64Decode => "Base64 decode error",
            VaultError::InvalidNonce => "Invalid nonce",
            VaultError::DecryptionFailed => "Decryption failed",
            VaultError::InvalidUtf8 => "UTF-8 error",
        }
    }
}

/// The length of the key in bytes.
pub const KEY_LEN: usize = 32;

/// The length of a nonce in bytes.
pub const NONCE_LEN: usize = 12;

/// The length of the integrity tag that follows the ciphertext, in bytes.
pub const TAG_LEN: usize = 16;

/// The value of one hexadecimal digit, upper or lower case.
pub open spec fn hex_digit_spec(b: u8) -> Option<u8> {
    if 0x30 <= b <= 0x39 {
        Some((b - 0x30) as u8)
    } else if 0x61 <= b <= 0x66 {
        Some((b - 0x61 + 10) as u8)
    } else if 0x41 <= b <= 0x46 {
        Some((b - 0x41 + 10) as u8)
    } else {
        None
    }
}

/// The bytes that a hexadecimal text stands for: two digits a byte, the high
/// digit first. A text of odd length or with any other character stands for
/// none.
pub open spec fn hex_decode_spec(hex: Seq<u8>) -> Option<Seq<u8>> {
    if hex.len() % 2 != 0 {
        None
    } else if exists|i: int| 0 <= i < hex.len() && hex_digit_spec(#[trigger] hex[i]) is None {
        None
    } else {
        Some(
            Seq::new(
                hex.len() / 2,
                |i: int|
                    (hex_digit_spec(hex[2 * i])->0 * 16 + hex_digit_spec(hex[2 * i + 1])->0) as u8,
            ),
        )
    }
}

/// Name for what `seal_in_place_append_tag` of the `ring` crate leaves in its
/// buffer under an AES-256-GCM key, a nonce and no associated data: the
/// ciphertext followed by the tag, or nothing where `ring` refuses.
pub uninterp spec fn aes_256_gcm_seal(key: Seq<u8>, nonce: Seq<u8>, plaintext: Seq<u8>) -> Option<
    Seq<u8>,
>;

/// Name for what `open_in_place` of the `ring` crate returns under an
/// AES-256-GCM key, a nonce and no associated data: the plaintext, or nothing
/// where the tag does not match or the input is malformed.
pub uninterp spec fn aes_256_gcm_open(key: Seq<u8>, nonce: Seq<u8>, sealed: Seq<u8>) -> Option<
    Seq<u8>,
>;

/// Name for what the standard engine of the `base64` crate encodes bytes to.
pub uninterp spec fn base64_encode(data: Seq<u8>) -> Seq<char>;

/// Name for what the standard engine of the `base64` crate decodes a text
/// to, or nothing where it rejects the text.
pub uninterp spec fn base64_decode(text: Seq<char>) -> Option<Seq<u8>>;

/// Calls `hex::decode`. Its result is stated in full by [`hex_decode_spec`].
#[verifier::external_body]
fn hex_decode(hex: &[u8]) -> (r: Option<Vec<u8>>)
    ensures
        match r {
            Some(bytes) => hex_decode_spec(hex@) == Some(bytes@),
            None => hex_decode_spec(hex@) is None,
        },
{
    hex::decode(hex).ok()
}

/// Calls `SystemRandom::fill` of `ring` on a buffer of [`NONCE_LEN`] bytes.
/// Nothing is known of the bytes but their number.
#[verifier::external_body]
fn fresh_nonce() -> (r: Option<Vec<u8>>)
    ensures
        r matches Some(nonce) ==> nonce@.len() == NONCE_LEN,
{
    let mut nonce = [0u8; NONCE_LEN];
    ring::rand::SecureRandom::fill(&ring::rand::SystemRandom::new(), &mut nonce).ok()?;
    Some(nonce.to_vec())
}

/// Calls `LessSafeKey::seal_in_place_append_tag` of `ring` with an
/// AES-256-GCM key made of `key`, the nonce `nonce` and no associated data.
/// What comes back is sixteen bytes longer than the plaintext, and opening it
/// under the same key and nonce gives the plaintext back.
#[verifier::external_body]
fn seal(key: &[u8], nonce: &[u8], plaintext: &[u8]) -> (r: Option<Vec<u8>>)
    ensures
        match r {
            Some(sealed) => aes_256_gcm_seal(key@, nonce@, plaintext@) == Some(sealed@),
            None => aes_256_gcm_seal(key@, nonce@, plaintext@) is None,
        },
        r matches Some(sealed) ==> sealed@.len() == plaintext@.len() + TAG_LEN,
        r matches Some(sealed) ==> aes_256_gcm_open(key@, nonce@, sealed@) == Some(plaintext@),
{
    let unbound = ring::aead::UnboundKey::new(&ring::aead::AES_256_GCM, key).ok()?;
    let nonce = ring::aead::Nonce::try_assume_unique_for_key(nonce).ok()?;
    let mut in_out = plaintext.to_vec();
    ring::aead::LessSafeKey::new(unbound)
        .seal_in_place_append_tag(nonce, ring::aead::Aad::empty(), &mut in_out)
        .ok()?;
    Some(in_out)
}

/// Calls `LessSafeKey::open_in_place` of `ring` with an AES-256-GCM key made
/// of `key`, the nonce `nonce` and no associated data. A plaintext that comes
/// back is sixteen bytes shorter than the input.
#[verifier::external_body]
fn open(key: &[u8], nonce: &[u8], sealed: &[u8]) -> (r: Option<Vec<u8>>)
    ensures
        match r {
            Some(plaintext) => aes_256_gcm_open(key@, nonce@, sealed@) == Some(plaintext@),
            None => aes_256_gcm_open(key@, nonce@, sealed@) is None,
        },
        r matches Some(plaintext) ==> plaintext@.len() + TAG_LEN == sealed@.len(),
{
    let unbound = ring::aead::UnboundKey::new(&ring::aead::AES_256_GCM, key).ok()?;
    let nonce = ring::aead::Nonce::try_assume_unique_for_key(nonce).ok()?;
    let mut in_out = sealed.to_vec();
    let plaintext = ring::aead::LessSafeKey::new(unbound)
        .open_in_place(nonce, ring::aead::Aad::empty(), &mut in_out)
        .ok()?;
    Some(plaintext.to_vec())
}

/// Calls `Engine::encode` on the standard engine of `base64`. Decoding what
/// comes back gives the bytes back.
#[verifier::external_body]
fn encode_base64(data: &[u8]) -> (r: String)
    requires
        data@.len() <= usize::MAX / 2,
    ensures
        r@ == base64_encode(data@),
        base64_decode(r@) == Some(data@),
{
    base64::Engine::encode(&base64::engine::general_purpose::STANDARD, data)
}

/// Calls `Engine::decode` on the standard engine of `base64`.
#[verifier::external_body]
pub(crate) fn decode_base64(text: &str) -> (r: Option<Vec<u8>>)
    ensures
        match r {
            Some(data) => base64_decode(text@) == Some(data@),
            None => base64_decode(text@) is None,
        },
{
    base64::Engine::decode(&base64::engine::general_purpose::STANDARD, text).ok()
}

/// Calls `String::from_utf8` of the standard library: the text that valid
/// UTF-8 bytes encode, and nothing for other bytes.
#[verifier::external_body]
fn text_from_utf8(bytes: Vec<u8>) -> (r: Option<String>)
    ensures
        match r {
            Some(text) => valid_utf8(bytes@) && text@ == decode_utf8(bytes@),
            None => !valid_utf8(bytes@),
        },
{
    String::from_utf8(bytes).ok()
}

/// The vault. It seals and opens secrets under one 256-bit key.
pub struct EncryptionService {
    key: Vec<u8>,
}

/// What sealing `plaintext` under `key` and `nonce` hands out: the
/// ciphertext with its tag and the nonce, both base64.
pub open spec fn encrypt_spec(key: Seq<u8>, plaintext: Seq<char>, nonce: Seq<u8>) -> Result<
    (Seq<char>, Seq<char>),
    VaultError,
> {
    if nonce.len() != NONCE_LEN {
        Err(VaultError::InvalidNonce)
    } else {
        match aes_256_gcm_seal(key, nonce, encode_utf8(plaintext)) {
            None => Err(VaultError::EncryptionFailed),
            Some(sealed) => if sealed.len() > usize::MAX / 2 {
                Err(VaultError::EncryptionFailed)
            } else {
                Ok((base64_encode(sealed), base64_encode(nonce)))
            },
        }
    }
}

/// What opening a base64 ciphertext under `key` and a base64 nonce gives.
pub open spec fn decrypt_spec(key: Seq<u8>, ciphertext: Seq<char>, nonce: Seq<char>) -> Result<
    Seq<char>,
    VaultError,
> {
    match base64_decode(ciphertext) {
        None => Err(VaultError::Base64Decode),
        Some(sealed) => match base64_decode(nonce) {
            None => Err(VaultError::Base64Decode),
            Some(nonce_bytes) => if nonce_bytes.len() != NONCE_LEN {
                Err(VaultError::InvalidNonce)
            } else {
                match aes_256_gcm_open(key, nonce_bytes, sealed) {
                    None => Err(VaultError::DecryptionFailed),
                    Some(plain) => if valid_utf8(plain) {
                        Ok(decode_utf8(plain))
                    } else {
                        Err(VaultError::InvalidUtf8)
                    },
                }
            },
        },
    }
}

/// Whether `sealed` is what the vault hands out for `plaintext` under `key`
/// and `nonce`: the pair that [`encrypt_spec`] names, made of base64 texts
/// that decode to the sealed bytes and the nonce, where the nonce has twelve
/// bytes and the sealed bytes are the length of the plaintext and sixteen
/// bytes of tag, and open to the plaintext.
pub open spec fn sealed_by(
    key: Seq<u8>,
    plaintext: Seq<char>,
    nonce: Seq<u8>,
    sealed: (Seq<char>, Seq<char>),
) -> bool {
    &&& encrypt_spec(key, plaintext, nonce) == Ok::<(Seq<char>, Seq<char>), VaultError>(sealed)
    &&& nonce.len() == NONCE_LEN
    &&& aes_256_gcm_seal(key, nonce, encode_utf8(plaintext)) matches Some(bytes)
    &&& bytes.len() == encode_utf8(plaintext).len() + TAG_LEN
    &&& base64_decode(sealed.0) == Some(bytes)
    &&& base64_decode(sealed.1) == Some(nonce)
    &&& aes_256_gcm_open(key, nonce, bytes) == Some(encode_utf8(plaintext))
}

/// Whether the cipher refuses to seal `plaintext` under `key` and the
/// twelve-byte nonce `nonce`.
pub open spec fn sealing_fails(key: Seq<u8>, plaintext: Seq<char>, nonce: Seq<u8>) -> bool {
    nonce.len() == NONCE_LEN && encrypt_spec(key, plaintext, nonce) == Err::<
        (Seq<char>, Seq<char>),
        VaultError,
    >(VaultError::EncryptionFailed)
}

/// Opening what the vault sealed gives the plaintext back.
pub proof fn lemma_decrypt_inverts_encrypt(
    key: Seq<u8>,
    plaintext: Seq<char>,
    nonce: Seq<u8>,
    sealed: (Seq<char>, Seq<char>),
)
    requires
        sealed_by(key, plaintext, nonce, sealed),
    ensures
        decrypt_spec(key, sealed.0, sealed.1) == Ok::<Seq<char>, VaultError>(plaintext),
{
    encode_utf8_valid_utf8(plaintext);
    encode_utf8_decode_utf8(plaintext);
}

impl EncryptionService {
    #[verifier::type_invariant]
    spec fn well_formed(self) -> bool {
        self.key@.len() == KEY_LEN
    }

    /// The key of the vault.
    pub closed spec fn key_bytes(&self) -> Seq<u8> {
        self.key@
    }

    /// Makes the vault of a key given as 64 hexadecimal digits.
    pub fn new(key_hex: &str) -> (r: Result<EncryptionService, VaultError>)
        ensures
            match r {
                Ok(vault) => hex_decode_spec(encode_utf8(key_hex@)) == Some(vault.key_bytes())
                    && vault.key_bytes().len() == KEY_LEN,
                Err(e) => e == VaultError::InvalidKey && !(hex_decode_spec(encode_utf8(key_hex@))
                    matches Some(k) && k.len() == KEY_LEN),
            },
    {
        match hex_decode(key_hex.as_bytes()) {
            Some(key) => {
                if key.len() == KEY_LEN {
                    Ok(EncryptionService { key })
                } else {
                    Err(VaultError::InvalidKey)
                }
            },
            None => Err(VaultError::InvalidKey),
        }
    }

    /// Seals `plaintext` under the vault's key and the given nonce. The
    /// nonce must not be used twice with one key.
    pub fn encrypt_with_nonce(&self, plaintext: &str, nonce: &[u8]) -> (r: Result<
        (String, String),
        VaultError,
    >)
        ensures
            match r {
                Ok(pair) => sealed_by(self.key_bytes(), plaintext@, nonce@, (pair.0@, pair.1@)),
                Err(e) => encrypt_spec(self.key_bytes(), plaintext@, nonce@) == Err::<
                    (Seq<char>, Seq<char>),
                    VaultError,
                >(e),
            },
    {
        proof {
            use_type_invariant(self);
        }
        if nonce.len() != NONCE_LEN {
            return Err(VaultError::InvalidNonce);
        }
        match seal(self.key.as_slice(), nonce, plaintext.as_bytes()) {
            None => Err(VaultError::EncryptionFailed),
            Some(sealed) => {
                if sealed.len() > usize::MAX / 2 {
                    return Err(VaultError::EncryptionFailed);
                }
                let ciphertext = encode_base64(sealed.as_slice());
                let nonce_text = encode_base64(nonce);
                Ok((ciphertext, nonce_text))
            },
        }
    }

    /// Seals `plaintext` under the vault's key and a fresh random nonce, and
    /// hands out the ciphertext and the nonce, both base64. Whatever nonce was
    /// drawn, [`EncryptionService::decrypt`] gives the plaintext back. It
    /// fails where no nonce can be drawn, and where the cipher refuses to
    /// seal under the nonce that was drawn.
    pub fn encrypt(&self, plaintext: &str) -> (r: Result<(String, String), VaultError>)
        ensures
            match r {
                Ok(pair) => {
                    &&& exists|nonce: Seq<u8>|
                        #[trigger] sealed_by(
                            self.key_bytes(),
                            plaintext@,
                            nonce,
                            (pair.0@, pair.1@),
                        )
                    &&& decrypt_spec(self.key_bytes(), pair.0@, pair.1@) == Ok::<
                        Seq<char>,
                        VaultError,
                    >(plaintext@)
                },
                Err(e) => e == VaultError::RandomUnavailable || (e == VaultError::EncryptionFailed
                    && exists|nonce: Seq<u8>|
                    #[trigger] sealing_fails(self.key_bytes(), plaintext@, nonce)),
            },
    {
        match fresh_nonce() {
            None => Err(VaultError::RandomUnavailable),
            Some(nonce) => {
                match self.encrypt_with_nonce(plaintext, nonce.as_slice()) {
                    Ok(pair) => {
                        proof {
                            lemma_decrypt_inverts_encrypt(
                                self.key_bytes(),
                                plaintext@,
                                nonce@,
                                (pair.0@, pair.1@),
                            );
                        }
                        Ok(pair)
                    },
                    Err(e) => {
                        assert(sealing_fails(self.key_bytes(), plaintext@, nonce@));
                        Err(e)
                    },
                }
            },
        }
    }

    /// Opens a base64 ciphertext sealed under the vault's key and the given
    /// base64 nonce. It fails, and hands out no text, where an input is
    /// malformed or the integrity tag does not match.
    pub fn decrypt(&self, ciphertext_base64: &str, nonce_base64: &str) -> (r: Result<
        String,
        VaultError,
    >)
        ensures
            match r {
                Ok(text) => decrypt_spec(self.key_bytes(), ciphertext_base64@, nonce_base64@)
                    == Ok::<Seq<char>, VaultError>(text@),
                Err(e) => decrypt_spec(self.key_bytes(), ciphertext_base64@, nonce_base64@)
                    == Err::<Seq<char>, VaultError>(e),
            },
    {
        let sealed = match decode_base64(ciphertext_base64) {
            Some(bytes) => bytes,
            None => return Err(VaultError::Base64Decode),
        };
        let nonce = match decode_base64(nonce_base64) {
            Some(bytes) => bytes,
            None => return Err(VaultError::Base64Decode),
        };
        if nonce.len() != NONCE_LEN {
            return Err(VaultError::InvalidNonce);
        }
        let plain = match open(self.key.as_slice(), nonce.as_slice(), sealed.as_slice()) {
            Some(bytes) => bytes,
            None => return Err(VaultError::DecryptionFailed),
        };
        match text_from_utf8(plain) {
            Some(text) => Ok(text),
            None => Err(VaultError::InvalidUtf8),
        }
    }
}

} // verus!
