//! Secrets as the vault holds them in memory, and the errors of every layer.

use vstd::prelude::*;
use vstd::utf8::*;

verus! {

/// Shortest key or value, in bytes of its UTF-8 form, that a secret may hold.
pub const MIN_LEN: usize = 2;

/// Longest key or value, in bytes of its UTF-8 form, that a secret may hold.
pub const MAX_LEN: usize = 128;

/// What went wrong, by the layer that noticed it, with a message for the user.
#[derive(Debug)]
pub enum SecretError {
    /// The key of a secret is too short or too long.
    InvalidKey(String),
    /// The value of a secret is too short or too long.
    InvalidVal(String),
    /// Key derivation, encryption, decryption or authentication failed.
    CryptoErr(String),
    /// The database could not be opened, written or read, or holds no such key.
    StoreErr(String),
    /// No clipboard tool is at hand, or the tool failed.
    ClipboardErr(String),
}

/// The message that rejects a key.
pub open spec fn key_length_message() -> Seq<char> {
    "key must be between 2 and 128 characters"@
}

/// The message that rejects a value.
pub open spec fn value_length_message() -> Seq<char> {
    "value must be between 2 and 128 characters"@
}

/// Whether `text` begins with `prefix`.
pub open spec fn starts_with(text: Seq<char>, prefix: Seq<char>) -> bool {
    prefix.len() <= text.len() && text.subrange(0, prefix.len() as int) == prefix
}

/// Whatever follows a prefix, the whole begins with it.
pub proof fn lemma_starts_with_concat(prefix: Seq<char>, rest: Seq<char>)
    ensures
        starts_with(prefix + rest, prefix),
{
    assert((prefix + rest).subrange(0, prefix.len() as int) =~= prefix);
}

impl SecretError {
    /// The message that the error carries.
    pub open spec fn text(self) -> Seq<char> {
        match self {
            SecretError::InvalidKey(m) => m@,
            SecretError::InvalidVal(m) => m@,
            SecretError::CryptoErr(m) => m@,
            SecretError::StoreErr(m) => m@,
            SecretError::ClipboardErr(m) => m@,
        }
    }

    /// The message, as it is shown to the user.
    pub fn message(&self) -> (m: String)
        ensures
            m@ == self.text(),
    {
        match self {
            SecretError::InvalidKey(m) => m.clone(),
            SecretError::InvalidVal(m) => m.clone(),
            SecretError::CryptoErr(m) => m.clone(),
            SecretError::StoreErr(m) => m.clone(),
            SecretError::ClipboardErr(m) => m.clone(),
        }
    }
}

/// Whether `text` may stand as the key or the value of a secret: its UTF-8
/// form has between `MIN_LEN` and `MAX_LEN` bytes.
pub open spec fn valid_text(text: Seq<char>) -> bool {
    MIN_LEN <= encode_utf8(text).len() <= MAX_LEN
}

/// A text of plain ASCII has as many bytes as characters. Functions whose
/// outcome depends on a length in bytes state this of their arguments, so that
/// a caller who knows the characters knows the outcome.
pub open spec fn ascii_counted(text: Seq<char>) -> bool {
    is_ascii_chars(text) ==> encode_utf8(text).len() == text.len()
}

/// `ascii_counted` holds of every text.
pub proof fn lemma_ascii_counted(text: Seq<char>)
    ensures
        ascii_counted(text),
{
    if is_ascii_chars(text) {
        is_ascii_chars_encode_utf8(text);
    }
}

/// A secret as a pair of texts.
pub struct SecretView {
    pub key: Seq<char>,
    pub val: Seq<char>,
}

impl SecretView {
    /// Both texts are of an accepted length.
    pub open spec fn valid(self) -> bool {
        valid_text(self.key) && valid_text(self.val)
    }
}

/// A key with its plaintext value, both of an accepted length.
pub struct Secret {
    key: String,
    val: String,
}

impl View for Secret {
    type V = SecretView;

    closed spec fn view(&self) -> SecretView {
        SecretView { key: self.key@, val: self.val@ }
    }
}

impl Secret {
    #[verifier::type_invariant]
    spec fn well_formed(self) -> bool {
        valid_text(self.key@) && valid_text(self.val@)
    }

    /// Builds a secret, or says which of the two texts has a length outside
    /// `MIN_LEN..=MAX_LEN`; the key is judged first.
    pub fn new(key: String, val: String) -> (r: Result<Secret, SecretError>)
        ensures
            match r {
                Ok(secret) => secret@ == (SecretView { key: key@, val: val@ }) && secret@.valid(),
                Err(SecretError::InvalidKey(m)) => !valid_text(key@) && m@ == key_length_message(),
                Err(SecretError::InvalidVal(m)) => valid_text(key@) && !valid_text(val@) && m@
                    == value_length_message(),
                Err(_) => false,
            },
            ascii_counted(key@),
            ascii_counted(val@),
    {
        proof {
            lemma_ascii_counted(key@);
            lemma_ascii_counted(val@);
        }
        if !Self::is_valid_string(&key) {
            return Err(SecretError::InvalidKey("key must be between 2 and 128 characters".to_owned()));
        }
        if !Self::is_valid_string(&val) {
            return Err(
                SecretError::InvalidVal("value must be between 2 and 128 characters".to_owned()),
            );
        }
        Ok(Secret { key, val })
    }

    /// The key under which the secret is kept.
    pub fn key(&self) -> (k: &String)
        ensures
            k@ == self@.key,
            self@.valid(),
    {
        proof {
            use_type_invariant(self);
        }
        &self.key
    }

    /// The plaintext value.
    pub fn val(&self) -> (v: &String)
        ensures
            v@ == self@.val,
            self@.valid(),
    {
        proof {
            use_type_invariant(self);
        }
        &self.val
    }

    /// Whether `s` has an accepted length.
    pub fn is_valid_string(s: &String) -> (ok: bool)
        ensures
            ok == valid_text(s@),
            ascii_counted(s@),
    {
        proof {
            lemma_ascii_counted(s@);
        }
        let len: usize = s.as_str().as_bytes().len();
        len >= MIN_LEN && len <= MAX_LEN
    }
}

} // verus!
