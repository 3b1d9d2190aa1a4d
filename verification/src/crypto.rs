//! Passphrase-derived keys and the sealed, base64-encoded envelopes of values.

use crate::secret::{
    ascii_counted, lemma_ascii_counted, lemma_starts_with_concat, starts_with, SecretError,
};
use argon2::Argon2;
use base64::engine::general_purpose::STANDARD;
use base64::Engine;
use chacha20poly1305::aead::{Aead, KeyInit, OsRng};
use chacha20poly1305::{ChaCha20Poly1305, Key, Nonce};
use rand::RngCore;
use vstd::prelude::*;
use vstd::slice::*;
use vstd::string::*;
use vstd::utf8::*;

verus! {

/// Bytes of a derived key.
pub const KEY_LEN: usize = 32;

/// Bytes of the nonce that leads every envelope.
pub const NONCE_LEN: usize = 12;

/// Bytes of the authentication tag that ends every ciphertext.
pub const TAG_LEN: usize = 16;

/// The salt of every key derivation, the same in all installations: the bytes
/// of `vaulter_fixed_salt_v1_no_change!`. Equal passphrases therefore give
/// equal keys on every machine, which is a known weakness.
pub const SALT: [u8; 32] = [
    118, 97, 117, 108, 116, 101, 114, 95, 102, 105, 120, 101, 100, 95, 115, 97,
    108, 116, 95, 118, 49, 95, 110, 111, 95, 99, 104, 97, 110, 103, 101, 33,
];

/// The longest passphrase, in bytes, that Argon2 takes.
pub const MAX_PASSPHRASE_LEN: usize = 0xFFFF_FFFF;

/// An error of the `argon2` crate.
#[verifier::external_type_specification]
#[verifier::external_body]
pub struct ExArgon2Error(argon2::Error);

/// The opaque error of the `aead` traits.
#[verifier::external_type_specification]
#[verifier::external_body]
pub struct ExAeadError(chacha20poly1305::aead::Error);

/// An error of the `base64` decoder.
#[verifier::external_type_specification]
#[verifier::external_body]
pub struct ExDecodeError(base64::DecodeError);

/// An error of the operating system's random number generator.
#[verifier::external_type_specification]
#[verifier::external_body]
pub struct ExRandError(rand::Error);

/// The error of `String::from_utf8`.
#[verifier::external_type_specification]
#[verifier::external_body]
pub struct ExFromUtf8Error(std::string::FromUtf8Error);

/// The 32 bytes that Argon2, with the crate's default algorithm, version and
/// cost, derives from a passphrase and a salt.
pub uninterp spec fn argon2_key(passphrase: Seq<u8>, salt: Seq<u8>) -> Seq<u8>;

/// The ciphertext, tag included, that ChaCha20-Poly1305 gives for a plaintext
/// under a key and a nonce, with no associated data.
pub uninterp spec fn chacha20poly1305_seal(key: Seq<u8>, nonce: Seq<u8>, plaintext: Seq<u8>) -> Seq<u8>;

/// The plaintext that ChaCha20-Poly1305 gives back for a ciphertext under a key
/// and a nonce, with no associated data; `None` where it refuses the
/// ciphertext, as it does when the tag does not verify.
pub uninterp spec fn chacha20poly1305_open(key: Seq<u8>, nonce: Seq<u8>, ciphertext: Seq<u8>) -> Option<Seq<u8>>;

/// The standard, padded base64 text of a byte sequence.
pub uninterp spec fn base64_encode(bytes: Seq<u8>) -> Seq<char>;

/// The bytes that a standard, padded base64 text stands for; `None` where the
/// text is malformed.
pub uninterp spec fn base64_decode(text: Seq<char>) -> Option<Seq<u8>>;

/// Whether Argon2 takes a passphrase and a salt of these lengths.
pub open spec fn accepted_by_argon2(passphrase: Seq<u8>, salt: Seq<u8>) -> bool {
    passphrase.len() <= 0xFFFF_FFFF && 8 <= salt.len() <= 0xFFFF_FFFF
}

/// `Argon2::default().hash_password_into`, with a 32-byte output. Not proved:
/// the call succeeds exactly when the passphrase has at most 2^32 - 1 bytes and
/// the salt between 8 and 2^32 - 1, and its output is a function of the two.
#[verifier::external_body]
fn derive_key(passphrase: &[u8], salt: &[u8]) -> (r: Result<[u8; 32], argon2::Error>)
    ensures
        match r {
            Ok(key) => accepted_by_argon2(passphrase@, salt@) && key@ == argon2_key(
                passphrase@,
                salt@,
            ),
            Err(_) => !accepted_by_argon2(passphrase@, salt@),
        },
{
    let mut key = [0u8; 32];
    match Argon2::default().hash_password_into(passphrase, salt, &mut key) {
        Ok(()) => Ok(key),
        Err(e) => Err(e),
    }
}

/// `OsRng.try_fill_bytes` on twelve bytes. Nothing is claimed of the bytes.
#[verifier::external_body]
fn fresh_nonce() -> (r: Result<[u8; 12], rand::Error>) {
    let mut nonce = [0u8; 12];
    match OsRng.try_fill_bytes(&mut nonce) {
        Ok(()) => Ok(nonce),
        Err(e) => Err(e),
    }
}

/// `Aead::encrypt` of `ChaCha20Poly1305`. Not proved: the call fails exactly
/// when the plaintext has 2^32 - 1 or more blocks of 64 bytes; the ciphertext is
/// a function of key, nonce and plaintext, is 16 bytes longer than the
/// plaintext, and opens to the plaintext under the same key and nonce.
#[verifier::external_body]
fn seal(key: &[u8; 32], nonce: &[u8; 12], plaintext: &[u8]) -> (r: Result<
    Vec<u8>,
    chacha20poly1305::aead::Error,
>)
    ensures
        match r {
            Ok(sealed) => {
                &&& plaintext@.len() / 64 < 0xFFFF_FFFF
                &&& sealed@ == chacha20poly1305_seal(key@, nonce@, plaintext@)
                &&& sealed@.len() == plaintext@.len() + 16
                &&& chacha20poly1305_open(key@, nonce@, sealed@) == Some(plaintext@)
            },
            Err(_) => plaintext@.len() / 64 >= 0xFFFF_FFFF,
        },
{
    ChaCha20Poly1305::new(Key::from_slice(key)).encrypt(Nonce::from_slice(nonce), plaintext)
}

/// `Aead::decrypt` of `ChaCha20Poly1305`. Not proved: the outcome is a function
/// of key, nonce and ciphertext, and a plaintext that comes back is 16 bytes
/// shorter than the ciphertext, so that a ciphertext too short for a tag is
/// refused.
#[verifier::external_body]
fn open(key: &[u8; 32], nonce: &[u8], ciphertext: &[u8]) -> (r: Result<
    Vec<u8>,
    chacha20poly1305::aead::Error,
>)
    requires
        nonce@.len() == 12,
    ensures
        match r {
            Ok(plaintext) => {
                &&& chacha20poly1305_open(key@, nonce@, ciphertext@) == Some(plaintext@)
                &&& ciphertext@.len() == plaintext@.len() + 16
            },
            Err(_) => chacha20poly1305_open(key@, nonce@, ciphertext@) is None,
        },
{
    ChaCha20Poly1305::new(Key::from_slice(key)).decrypt(Nonce::from_slice(nonce), ciphertext)
}

/// The `Display` text of the `aead` error, which is the same for every failure.
#[verifier::external_body]
fn aead_error_text(e: &chacha20poly1305::aead::Error) -> (text: String)
    ensures
        text@ == "aead::Error"@,
{
    format!("{}", e)
}

/// Whether `c` is a character of the standard base64 alphabet, or the padding.
pub open spec fn is_base64_char(c: char) -> bool {
    ||| 'A' <= c <= 'Z'
    ||| 'a' <= c <= 'z'
    ||| '0' <= c <= '9'
    ||| c == '+'
    ||| c == '/'
    ||| c == '='
}

/// Whether `text` holds nothing but characters of the standard base64
/// alphabet and the padding.
pub open spec fn is_base64_text(text: Seq<char>) -> bool {
    forall|i: int| 0 <= i < text.len() ==> is_base64_char(#[trigger] text[i])
}

/// `Engine::encode` of base64's `STANDARD` engine, which panics where the
/// encoded length overflows. Not proved: the text is a function of the bytes
/// and decodes to them; it has four characters for every three bytes, the
/// last group padded; and it holds only the alphabet and the padding.
#[verifier::external_body]
fn encode_base64(bytes: &[u8]) -> (text: String)
    requires
        bytes@.len() / 3 * 4 + 4 <= usize::MAX,
    ensures
        text@ == base64_encode(bytes@),
        base64_decode(text@) == Some(bytes@),
        text@.len() == (bytes@.len() + 2) / 3 * 4,
        is_base64_text(text@),
{
    STANDARD.encode(bytes)
}

/// `Engine::decode` of base64's `STANDARD` engine. Not proved: the outcome is
/// a function of the text.
#[verifier::external_body]
fn decode_base64(text: &str) -> (r: Result<Vec<u8>, base64::DecodeError>)
    ensures
        match r {
            Ok(bytes) => base64_decode(text@) == Some(bytes@),
            Err(_) => base64_decode(text@) is None,
        },
{
    STANDARD.decode(text)
}

/// `String::from_utf8`. Not proved: it accepts exactly the valid UTF-8 byte
/// sequences, and gives the text that they encode.
#[verifier::external_body]
fn text_from_utf8(bytes: Vec<u8>) -> (r: Result<String, std::string::FromUtf8Error>)
    ensures
        match r {
            Ok(text) => valid_utf8(bytes@) && text@ == decode_utf8(bytes@),
            Err(_) => !valid_utf8(bytes@),
        },
{
    String::from_utf8(bytes)
}

/// Whether the cipher takes a plaintext of this length: fewer than 2^32 - 1
/// blocks of 64 bytes.
pub open spec fn sealable(plaintext: Seq<char>) -> bool {
    encode_utf8(plaintext).len() / 64 < 0xFFFF_FFFF
}

/// Whether the base64 text of the envelope of `plaintext` has a length that
/// fits the machine's `usize`.
pub open spec fn envelope_fits(plaintext: Seq<char>) -> bool {
    (NONCE_LEN + encode_utf8(plaintext).len() + TAG_LEN) / 3 * 4 + 4 <= usize::MAX
}

/// The envelope of `plaintext` under `key` and `nonce`: the nonce, then the
/// ciphertext with its tag.
pub open spec fn envelope(key: Seq<u8>, nonce: Seq<u8>, plaintext: Seq<char>) -> Seq<u8> {
    nonce + chacha20poly1305_seal(key, nonce, encode_utf8(plaintext))
}

/// The text that is stored for `plaintext`: its envelope in base64.
pub open spec fn sealed_text(key: Seq<u8>, nonce: Seq<u8>, plaintext: Seq<char>) -> Seq<char> {
    base64_encode(envelope(key, nonce, plaintext))
}

/// Why a stored text does not open.
pub enum Fault {
    /// It is not base64.
    Encoding,
    /// It decodes to fewer bytes than a nonce has.
    Truncated,
    /// The tag does not verify: another key, or the bytes were changed.
    Authentication,
    /// The plaintext is not UTF-8.
    Text,
}

/// What a stored text opens to under `key`.
pub open spec fn opened(key: Seq<u8>, encoded: Seq<char>) -> Result<Seq<char>, Fault> {
    match base64_decode(encoded) {
        None => Err(Fault::Encoding),
        Some(bytes) => if bytes.len() < NONCE_LEN {
            Err(Fault::Truncated)
        } else {
            match chacha20poly1305_open(
                key,
                bytes.subrange(0, NONCE_LEN as int),
                bytes.subrange(NONCE_LEN as int, bytes.len() as int),
            ) {
                None => Err(Fault::Authentication),
                Some(plaintext) => if valid_utf8(plaintext) {
                    Ok(decode_utf8(plaintext))
                } else {
                    Err(Fault::Text)
                },
            }
        },
    }
}

/// Whether `text` is what encryption stores for `plaintext` under `key` and
/// `nonce`: the base64 text of the envelope, which decodes to the envelope
/// again; the envelope has the nonce's twelve bytes, the plaintext's and the
/// tag's sixteen; the text has four characters of the alphabet for every three
/// bytes of it; and it opens to `plaintext`.
pub open spec fn encrypts(key: Seq<u8>, nonce: Seq<u8>, plaintext: Seq<char>, text: Seq<char>) -> bool {
    &&& nonce.len() == NONCE_LEN
    &&& text == sealed_text(key, nonce, plaintext)
    &&& base64_decode(text) == Some(envelope(key, nonce, plaintext))
    &&& envelope(key, nonce, plaintext).len() == NONCE_LEN + encode_utf8(plaintext).len() + TAG_LEN
    &&& text.len() == (envelope(key, nonce, plaintext).len() + 2) / 3 * 4
    &&& is_base64_text(text)
    &&& opened(key, text) == Ok::<Seq<char>, Fault>(plaintext)
}

/// Two encryptions of one plaintext under one key give two texts wherever
/// their nonces differ.
pub proof fn lemma_nonces_tell_texts_apart(
    key: Seq<u8>,
    plaintext: Seq<char>,
    first_nonce: Seq<u8>,
    first_text: Seq<char>,
    second_nonce: Seq<u8>,
    second_text: Seq<char>,
)
    requires
        encrypts(key, first_nonce, plaintext, first_text),
        encrypts(key, second_nonce, plaintext, second_text),
        first_nonce != second_nonce,
    ensures
        first_text != second_text,
{
    let first = envelope(key, first_nonce, plaintext);
    let second = envelope(key, second_nonce, plaintext);
    assert(first.subrange(0, NONCE_LEN as int) =~= first_nonce);
    assert(second.subrange(0, NONCE_LEN as int) =~= second_nonce);
}

/// A text has at least as many bytes as characters.
pub proof fn lemma_chars_at_most_bytes(text: Seq<char>)
    ensures
        text.len() <= encode_utf8(text).len(),
    decreases text.len(),
{
    if text.len() > 0 {
        lemma_chars_at_most_bytes(text.drop_first());
    }
}

/// What is stored for a plaintext is longer than the plaintext, so it is
/// neither the plaintext nor a part of it.
pub proof fn lemma_stored_text_is_longer(
    key: Seq<u8>,
    nonce: Seq<u8>,
    plaintext: Seq<char>,
    text: Seq<char>,
)
    requires
        encrypts(key, nonce, plaintext, text),
    ensures
        text.len() > encode_utf8(plaintext).len() >= plaintext.len(),
        text != plaintext,
{
    lemma_chars_at_most_bytes(plaintext);
}

/// An envelope opens to its plaintext wherever the cipher opens what it sealed
/// and the encoding decodes what it encoded. Both are what the two outside
/// crates are trusted for at every call of `encrypt_with_nonce`.
pub proof fn lemma_envelope_opens(key: Seq<u8>, nonce: Seq<u8>, plaintext: Seq<char>)
    requires
        nonce.len() == NONCE_LEN,
        chacha20poly1305_open(
            key,
            nonce,
            chacha20poly1305_seal(key, nonce, encode_utf8(plaintext)),
        ) == Some(encode_utf8(plaintext)),
        base64_decode(base64_encode(envelope(key, nonce, plaintext))) == Some(
            envelope(key, nonce, plaintext),
        ),
    ensures
        opened(key, sealed_text(key, nonce, plaintext)) == Ok::<Seq<char>, Fault>(plaintext),
{
    let ciphertext = chacha20poly1305_seal(key, nonce, encode_utf8(plaintext));
    let bytes = envelope(key, nonce, plaintext);
    assert(bytes.subrange(0, NONCE_LEN as int) =~= nonce);
    assert(bytes.subrange(NONCE_LEN as int, bytes.len() as int) =~= ciphertext);
    encode_utf8_valid_utf8(plaintext);
    encode_utf8_decode_utf8(plaintext);
}

/// The number of bytes that a stored text decodes to, if it is base64.
pub open spec fn decoded_len(encoded: Seq<char>) -> Option<int> {
    match base64_decode(encoded) {
        Some(bytes) => Some(bytes.len() as int),
        None => None,
    }
}

/// Whether a stored text decodes to a nonce with too few bytes behind it to
/// hold a tag.
pub open spec fn lacks_tag(encoded: Seq<char>) -> bool {
    decoded_len(encoded) matches Some(len) && NONCE_LEN <= len < NONCE_LEN + TAG_LEN
}

/// Whether `e` is the error with which `decrypt` answers `fault`.
pub open spec fn reports(fault: Fault, e: SecretError) -> bool {
    e matches SecretError::CryptoErr(m) && match fault {
        Fault::Encoding => starts_with(m@, "Base64 decode failed: "@),
        Fault::Truncated => m@ == "Invalid encrypted data"@,
        Fault::Authentication => m@ == "Decryption failed: aead::Error"@,
        Fault::Text => starts_with(m@, "Invalid UTF-8: "@),
    }
}

/// Whether `e` is the error of an encryption for which the operating system
/// gave no nonce.
pub open spec fn reports_no_nonce(e: SecretError) -> bool {
    e matches SecretError::CryptoErr(m) && starts_with(m@, "Failed to generate nonce: "@)
}

/// Whether `plaintext` can be encrypted: the cipher takes its length, and the
/// text of its envelope fits.
pub open spec fn encryptable(plaintext: Seq<char>) -> bool {
    sealable(plaintext) && envelope_fits(plaintext)
}

/// Whether `e` is the error with which encryption answers a `plaintext` that
/// cannot be encrypted.
pub open spec fn reports_unencryptable(plaintext: Seq<char>, e: SecretError) -> bool {
    e matches SecretError::CryptoErr(m) && if !sealable(plaintext) {
        m@ == "Encryption failed: aead::Error"@
    } else {
        !envelope_fits(plaintext) && m@ == "Encryption failed: envelope too long"@
    }
}

/// A symmetric key, derived from a passphrase, that seals and opens values.
pub struct Crypto {
    key: [u8; 32],
}

impl Crypto {
    /// The 32 bytes of the key.
    pub closed spec fn key_bytes(&self) -> Seq<u8> {
        self.key@
    }

    /// Derives the key of `passphrase` with Argon2 and the fixed `SALT`. Only a
    /// passphrase of more than `MAX_PASSPHRASE_LEN` bytes is refused.
    pub fn new(passphrase: &str) -> (r: Result<Crypto, SecretError>)
        ensures
            match r {
                Ok(crypto) => {
                    &&& encode_utf8(passphrase@).len() <= MAX_PASSPHRASE_LEN
                    &&& crypto.key_bytes() == argon2_key(encode_utf8(passphrase@), SALT@)
                    &&& crypto.key_bytes().len() == KEY_LEN
                },
                Err(SecretError::CryptoErr(m)) => encode_utf8(passphrase@).len()
                    > MAX_PASSPHRASE_LEN && starts_with(m@, "Failed to derive key: "@),
                Err(_) => false,
            },
            ascii_counted(passphrase@),
    {
        proof {
            lemma_ascii_counted(passphrase@);
        }
        let salt: [u8; 32] = SALT;
        match derive_key(passphrase.as_bytes(), salt.as_slice()) {
            Ok(key) => Ok(Crypto { key }),
            Err(e) => {
                let detail = e.to_string();
                let message = "Failed to derive key: ".to_owned().concat(detail.as_str());
                proof {
                    lemma_starts_with_concat("Failed to derive key: "@, detail@);
                }
                Err(SecretError::CryptoErr(message))
            },
        }
    }

    /// Seals `plaintext` under the given nonce: the base64 text of the nonce
    /// followed by the ciphertext, which decodes to those bytes and opens to
    /// `plaintext` again. Only a plaintext of a length that the cipher or the
    /// machine cannot take is refused.
    pub fn encrypt_with_nonce(&self, nonce: &[u8; 12], plaintext: &str) -> (r: Result<
        String,
        SecretError,
    >)
        ensures
            match r {
                Ok(text) => encryptable(plaintext@) && encrypts(
                    self.key_bytes(),
                    nonce@,
                    plaintext@,
                    text@,
                ),
                Err(e) => !encryptable(plaintext@) && reports_unencryptable(plaintext@, e),
            },
            ascii_counted(plaintext@),
    {
        proof {
            lemma_ascii_counted(plaintext@);
        }
        let mut sealed = match seal(&self.key, nonce, plaintext.as_bytes()) {
            Ok(sealed) => sealed,
            Err(e) => {
                let detail = aead_error_text(&e);
                let message = "Encryption failed: ".to_owned().concat(detail.as_str());
                proof {
                    reveal_strlit("Encryption failed: ");
                    reveal_strlit("aead::Error");
                    reveal_strlit("Encryption failed: aead::Error");
                    assert(message@ =~= "Encryption failed: aead::Error"@);
                }
                return Err(SecretError::CryptoErr(message));
            },
        };
        let room: usize = usize::MAX - NONCE_LEN;
        if sealed.len() > room || (NONCE_LEN + sealed.len()) / 3 > (usize::MAX - 4) / 4 {
            return Err(SecretError::CryptoErr("Encryption failed: envelope too long".to_owned()));
        }
        let mut combined = slice_to_vec(nonce.as_slice());
        combined.append(&mut sealed);
        let text = encode_base64(combined.as_slice());
        proof {
            assert(combined@ =~= envelope(self.key_bytes(), nonce@, plaintext@));
            lemma_envelope_opens(self.key_bytes(), nonce@, plaintext@);
        }
        Ok(text)
    }

    /// Seals `plaintext` under a nonce drawn from the operating system. Whatever
    /// the nonce, the result is the base64 text of the nonce followed by the
    /// ciphertext, and opens to `plaintext` again.
    pub fn encrypt(&self, plaintext: &str) -> (r: Result<String, SecretError>)
        ensures
            match r {
                Ok(text) => {
                    &&& encryptable(plaintext@)
                    &&& exists|nonce: Seq<u8>| #[trigger]
                        encrypts(self.key_bytes(), nonce, plaintext@, text@)
                    &&& opened(self.key_bytes(), text@) == Ok::<Seq<char>, Fault>(plaintext@)
                },
                Err(e) => reports_no_nonce(e) || (!encryptable(plaintext@)
                    && reports_unencryptable(plaintext@, e)),
            },
            ascii_counted(plaintext@),
    {
        proof {
            lemma_ascii_counted(plaintext@);
        }
        let nonce = match fresh_nonce() {
            Ok(nonce) => nonce,
            Err(e) => {
                let detail = e.to_string();
                let message = "Failed to generate nonce: ".to_owned().concat(detail.as_str());
                proof {
                    lemma_starts_with_concat("Failed to generate nonce: "@, detail@);
                }
                return Err(SecretError::CryptoErr(message));
            },
        };
        let r = self.encrypt_with_nonce(&nonce, plaintext);
        proof {
            if r is Ok {
                assert(encrypts(self.key_bytes(), nonce@, plaintext@, r->Ok_0@));
            }
        }
        r
    }

    /// Opens a stored text: decodes it, splits off the nonce, verifies the tag
    /// and reads the plaintext as UTF-8. Every failure is a `CryptoErr`. What
    /// opens decodes to twelve bytes of nonce, the bytes of the plaintext and
    /// sixteen of tag; what decodes to a nonce without room for a tag never opens.
    pub fn decrypt(&self, encrypted: &str) -> (r: Result<String, SecretError>)
        ensures
            match r {
                Ok(text) => {
                    &&& opened(self.key_bytes(), encrypted@) == Ok::<Seq<char>, Fault>(text@)
                    &&& decoded_len(encrypted@) == Some(
                        NONCE_LEN + encode_utf8(text@).len() + TAG_LEN,
                    )
                },
                Err(e) => opened(self.key_bytes(), encrypted@) matches Err(fault) && reports(
                    fault,
                    e,
                ),
            },
            lacks_tag(encrypted@) ==> (r matches Err(e) && reports(Fault::Authentication, e)),
    {
        let combined = match decode_base64(encrypted) {
            Ok(bytes) => bytes,
            Err(e) => {
                let detail = e.to_string();
                let message = "Base64 decode failed: ".to_owned().concat(detail.as_str());
                proof {
                    lemma_starts_with_concat("Base64 decode failed: "@, detail@);
                }
                return Err(SecretError::CryptoErr(message));
            },
        };
        if combined.len() < NONCE_LEN {
            return Err(SecretError::CryptoErr("Invalid encrypted data".to_owned()));
        }
        let nonce = slice_subrange(combined.as_slice(), 0, NONCE_LEN);
        let ciphertext = slice_subrange(combined.as_slice(), NONCE_LEN, combined.len());
        let plaintext = match open(&self.key, nonce, ciphertext) {
            Ok(plaintext) => plaintext,
            Err(e) => {
                let detail = aead_error_text(&e);
                let message = "Decryption failed: ".to_owned().concat(detail.as_str());
                proof {
                    reveal_strlit("Decryption failed: ");
                    reveal_strlit("aead::Error");
                    reveal_strlit("Decryption failed: aead::Error");
                    assert(message@ =~= "Decryption failed: aead::Error"@);
                }
                return Err(SecretError::CryptoErr(message));
            },
        };
        proof {
            if valid_utf8(plaintext@) {
                decode_utf8_encode_utf8(plaintext@);
            }
        }
        match text_from_utf8(plaintext) {
            Ok(text) => Ok(text),
            Err(e) => {
                let detail = e.to_string();
                let message = "Invalid UTF-8: ".to_owned().concat(detail.as_str());
                proof {
                    lemma_starts_with_concat("Invalid UTF-8: "@, detail@);
                }
                Err(SecretError::CryptoErr(message))
            },
        }
    }
}

} // verus!
