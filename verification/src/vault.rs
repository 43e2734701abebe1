//! Credential vault: encrypts a bearer token under a machine-local key and
//! renders it in the on-disk format `base64(nonce || ciphertext || tag)`.
//!
//! The vault works on plain values. Reading and writing the key and token
//! files, and restricting their permissions, is left to the surrounding
//! program, which mirrors this structure to and from disk.

use vstd::prelude::*;
use vstd::utf8::{decode_utf8, encode_utf8, valid_utf8};
use crate::errors::VaultError;

verus! {

/// Length in bytes of an AES-256-GCM key.
pub const KEY_LEN: usize = 32;

/// Length in bytes of the nonce that prefixes every stored token.
pub const NONCE_LEN: usize = 12;

/// Length in bytes of the authentication tag that AES-GCM appends.
pub const TAG_LEN: usize = 16;

/// The longest plaintext AES-GCM accepts, in bytes: 2^36 - 32.
pub const MAX_PLAINTEXT_LEN: u64 = 0xF_FFFF_FFE0;

/// The ciphertext-with-tag that AES-256-GCM produces for a key, nonce and
/// plaintext. Named rather than written out: the algorithm itself lives in
/// the outside crate.
pub uninterp spec fn aead_seal(key: Seq<u8>, nonce: Seq<u8>, plain: Seq<u8>) -> Seq<u8>;

/// What AES-256-GCM decryption yields for a key, nonce and ciphertext-with-tag:
/// the plaintext when the authentication tag verifies, nothing otherwise.
pub uninterp spec fn aead_open(key: Seq<u8>, nonce: Seq<u8>, cipher: Seq<u8>) -> Option<Seq<u8>>;

/// The base64 rendering (standard alphabet, padded) of a byte sequence.
pub uninterp spec fn b64_encoding(bytes: Seq<u8>) -> Seq<char>;

/// What base64 decoding yields: the bytes for a well-formed encoding,
/// nothing otherwise.
pub uninterp spec fn b64_parse(text: Seq<char>) -> Option<Seq<u8>>;

/// Relies on aes_gcm (`KeyInit::new_from_slice` and `Aead::encrypt`):
/// AES-256-GCM with a 96-bit nonce appends a 16-byte tag, the result is a
/// function of key, nonce and plaintext alone, decrypting it under the same
/// key and nonce gives the plaintext back, and encryption fails exactly when
/// the plaintext exceeds `MAX_PLAINTEXT_LEN`.
#[verifier::external_body]
fn aead_encrypt(key: &Vec<u8>, nonce: &Vec<u8>, plain: &Vec<u8>) -> (r: Option<Vec<u8>>)
    requires
        key@.len() == KEY_LEN,
        nonce@.len() == NONCE_LEN,
    ensures
        r matches Some(ct) ==> {
            &&& ct@ == aead_seal(key@, nonce@, plain@)
            &&& ct@.len() == plain@.len() + TAG_LEN
            &&& aead_open(key@, nonce@, ct@) == Some(plain@)
        },
        r is Some <==> plain@.len() <= MAX_PLAINTEXT_LEN,
{
    let cipher = <aes_gcm::Aes256Gcm as aes_gcm::KeyInit>::new_from_slice(key.as_slice()).unwrap();
    let nonce_arr: &aes_gcm::Nonce<aes_gcm::aead::consts::U12> =
        nonce.as_slice().try_into().unwrap();
    aes_gcm::aead::Aead::encrypt(&cipher, nonce_arr, plain.as_slice()).ok()
}

/// Relies on aes_gcm (`KeyInit::new_from_slice` and `Aead::decrypt`):
/// decryption returns the plaintext exactly when the authentication tag
/// verifies, and fails on any corrupted or truncated ciphertext.
#[verifier::external_body]
fn aead_decrypt(key: &Vec<u8>, nonce: &Vec<u8>, cipher: &Vec<u8>) -> (r: Option<Vec<u8>>)
    requires
        key@.len() == KEY_LEN,
        nonce@.len() == NONCE_LEN,
    ensures
        r matches Some(p) ==> aead_open(key@, nonce@, cipher@) == Some(p@),
        r is None ==> aead_open(key@, nonce@, cipher@) is None,
{
    let alg = <aes_gcm::Aes256Gcm as aes_gcm::KeyInit>::new_from_slice(key.as_slice()).unwrap();
    let nonce_arr: &aes_gcm::Nonce<aes_gcm::aead::consts::U12> =
        nonce.as_slice().try_into().unwrap();
    aes_gcm::aead::Aead::decrypt(&alg, nonce_arr, cipher.as_slice()).ok()
}

/// Relies on crypto_common's `Generate::try_generate` (through aes_gcm's key
/// type): 32 bytes from the operating system's secure random generator.
/// Nothing can be promised of their value, and the generator itself may fail.
#[verifier::external_body]
fn generate_key_bytes() -> (r: Option<Vec<u8>>)
    ensures
        r matches Some(k) ==> k@.len() == KEY_LEN,
{
    let key = <aes_gcm::Key<aes_gcm::Aes256Gcm> as aes_gcm::aead::Generate>::try_generate();
    key.ok().map(|k| k.as_slice().to_vec())
}

/// Relies on crypto_common's `Generate::try_generate` (through aes_gcm's
/// nonce type): 12 bytes from the operating system's secure random generator.
/// Nothing can be promised of their value, and the generator itself may fail.
#[verifier::external_body]
fn generate_nonce_bytes() -> (r: Option<Vec<u8>>)
    ensures
        r matches Some(n) ==> n@.len() == NONCE_LEN,
{
    let nonce =
        <aes_gcm::Nonce<aes_gcm::aead::consts::U12> as aes_gcm::aead::Generate>::try_generate();
    nonce.ok().map(|n| n.as_slice().to_vec())
}

/// Relies on base64's `Engine::encode` with the STANDARD engine: four
/// characters for every three bytes of input, and base64's own decoder
/// accepts the result and maps it back to the same bytes.
#[verifier::external_body]
fn b64_encode(bytes: &Vec<u8>) -> (r: String)
    requires
        bytes@.len() < 0x1000_0000_0000,
    ensures
        r@ == b64_encoding(bytes@),
        b64_parse(r@) == Some(bytes@),
        r@.len() == 4 * ((bytes@.len() + 2) / 3),
{
    base64::Engine::encode(&base64::engine::general_purpose::STANDARD, bytes.as_slice())
}

/// Relies on base64's `Engine::decode` with the STANDARD engine: succeeds
/// exactly on well-formed padded standard-alphabet input, returning the
/// encoded bytes.
#[verifier::external_body]
fn b64_decode(text: &str) -> (r: Option<Vec<u8>>)
    ensures
        r matches Some(b) ==> b64_parse(text@) == Some(b@),
        r is None ==> b64_parse(text@) is None,
{
    base64::Engine::decode(&base64::engine::general_purpose::STANDARD, text).ok()
}

/// Relies on `String::from_utf8`: succeeds exactly on valid UTF-8 and
/// returns the characters those bytes encode.
#[verifier::external_body]
fn bytes_to_string(bytes: Vec<u8>) -> (r: Option<String>)
    ensures
        r matches Some(s) ==> valid_utf8(bytes@) && s@ == decode_utf8(bytes@),
        r is None ==> !valid_utf8(bytes@),
{
    String::from_utf8(bytes).ok()
}

/// The bytes of a stored token before base64: the nonce followed by the
/// ciphertext and tag of the UTF-8 plaintext.
pub open spec fn token_bytes(key: Seq<u8>, nonce: Seq<u8>, plain: Seq<char>) -> Seq<u8> {
    nonce + aead_seal(key, nonce, encode_utf8(plain))
}

/// The full on-disk rendering of a stored token.
pub open spec fn sealed_encoding(key: Seq<u8>, nonce: Seq<u8>, plain: Seq<char>) -> Seq<char> {
    b64_encoding(token_bytes(key, nonce, plain))
}

/// What opening a stored rendering yields, with the exact error for each way
/// it can be malformed: not base64, shorter than a nonce, an authentication
/// failure, or plaintext that is not UTF-8.
pub open spec fn open_outcome(key: Seq<u8>, enc: Seq<char>) -> Result<Seq<char>, VaultError> {
    match b64_parse(enc) {
        None => Err(VaultError::EncodeFailure),
        Some(data) => {
            if data.len() < NONCE_LEN {
                Err(VaultError::InvalidFormat)
            } else {
                match aead_open(key, data.subrange(0, NONCE_LEN as int),
                    data.subrange(NONCE_LEN as int, data.len() as int)) {
                    None => Err(VaultError::DecryptionFailed),
                    Some(p) => {
                        if valid_utf8(p) {
                            Ok(decode_utf8(p))
                        } else {
                            Err(VaultError::InvalidFormat)
                        }
                    },
                }
            }
        },
    }
}

/// Everything a successful save establishes about the rendering it stored:
/// the nonce length, the exact encoding, and the two facts the outside
/// crates guarantee for it — its base64 parses back to the token bytes, and
/// decrypting its ciphertext under the same key and nonce yields the
/// plaintext bytes.
pub open spec fn saved_token_ok(key: Seq<u8>, nonce: Seq<u8>, plain: Seq<char>, enc: Seq<char>) -> bool {
    &&& nonce.len() == NONCE_LEN
    &&& enc == sealed_encoding(key, nonce, plain)
    &&& b64_parse(enc) == Some(token_bytes(key, nonce, plain))
    &&& aead_open(key, nonce, aead_seal(key, nonce, encode_utf8(plain))) == Some(
        encode_utf8(plain),
    )
}

/// Round-trip law: a rendering that a save produced opens to exactly the
/// credential that was saved, for any key, nonce and plaintext the save
/// accepted. Together with the contracts of `Vault::save_token` and
/// `Vault::load_token` this says that loading immediately after a successful
/// save returns the saved string unchanged, whatever it held.
pub proof fn lemma_save_then_load_round_trips(
    key: Seq<u8>,
    nonce: Seq<u8>,
    plain: Seq<char>,
    enc: Seq<char>,
)
    requires
        saved_token_ok(key, nonce, plain, enc),
    ensures
        open_outcome(key, enc) == Ok::<Seq<char>, VaultError>(plain),
{
    let tb = token_bytes(key, nonce, plain);
    assert(tb.subrange(0, NONCE_LEN as int) =~= nonce);
    assert(tb.subrange(NONCE_LEN as int, tb.len() as int) =~= aead_seal(
        key,
        nonce,
        encode_utf8(plain),
    ));
    vstd::utf8::encode_utf8_valid_utf8(plain);
    vstd::utf8::encode_utf8_decode_utf8(plain);
}

/// Encrypt a credential with a given nonce and render it for storage.
fn seal_token(key: &Vec<u8>, nonce: &Vec<u8>, plaintext: &str) -> (r: Result<String, VaultError>)
    requires
        key@.len() == KEY_LEN,
        nonce@.len() == NONCE_LEN,
        encode_utf8(plaintext@).len() <= MAX_PLAINTEXT_LEN,
    ensures
        r matches Ok(enc) ==> saved_token_ok(key@, nonce@, plaintext@, enc@),
        r is Ok,
{
    let plain_bytes = plaintext.as_bytes_vec();
    let ct = match aead_encrypt(key, nonce, &plain_bytes) {
        Some(ct) => ct,
        None => {
            return Err(VaultError::EncodeFailure);
        },
    };
    let mut data: Vec<u8> = Vec::new();
    data.extend_from_slice(nonce.as_slice());
    let mut tail = ct;
    data.append(&mut tail);
    assert(data@ == token_bytes(key@, nonce@, plaintext@));
    let enc = b64_encode(&data);
    proof {
        assert(saved_token_ok(key@, nonce@, plaintext@, enc@));
    }
    Ok(enc)
}

/// Decode, split and decrypt a stored rendering, classifying each failure.
fn open_token(key: &Vec<u8>, encoded: &str) -> (r: Result<String, VaultError>)
    requires
        key@.len() == KEY_LEN,
    ensures
        match r {
            Ok(s) => open_outcome(key@, encoded@) == Ok::<Seq<char>, VaultError>(s@),
            Err(e) => open_outcome(key@, encoded@) == Err::<Seq<char>, VaultError>(e),
        },
{
    let mut data = match b64_decode(encoded) {
        Some(d) => d,
        None => {
            return Err(VaultError::EncodeFailure);
        },
    };
    if data.len() < NONCE_LEN {
        return Err(VaultError::InvalidFormat);
    }
    let cipher = data.split_off(NONCE_LEN);
    let nonce = data;
    let plain_bytes = match aead_decrypt(key, &nonce, &cipher) {
        Some(p) => p,
        None => {
            return Err(VaultError::DecryptionFailed);
        },
    };
    match bytes_to_string(plain_bytes) {
        Some(s) => Ok(s),
        None => Err(VaultError::InvalidFormat),
    }
}

/// The credential vault: the machine-local key together with the rendered
/// token currently stored, if any. The surrounding program persists both to
/// files with owner-only permissions and rebuilds the vault from them.
pub struct Vault {
    key: Vec<u8>,
    stored: Option<String>,
}

impl Vault {
    /// The key, as the contracts speak of it.
    pub closed spec fn key_view(&self) -> Seq<u8> {
        self.key@
    }

    /// The stored rendering, as the contracts speak of it.
    pub closed spec fn stored_view(&self) -> Option<Seq<char>> {
        match self.stored {
            Some(s) => Some(s@),
            None => None,
        }
    }

    /// The vault's invariant: it holds a full-length AES-256 key.
    pub open spec fn wf(&self) -> bool {
        self.key_view().len() == KEY_LEN
    }

    /// A vault over an existing key with nothing stored.
    pub fn new(key: Vec<u8>) -> (r: Vault)
        requires
            key@.len() == KEY_LEN,
        ensures
            r.wf(),
            r.key_view() == key@,
            r.stored_view() is None,
    {
        Vault { key, stored: None }
    }

    /// A vault rebuilt from persisted state: the key and, when the token
    /// file exists, its textual contents.
    pub fn restore(key: Vec<u8>, stored: Option<String>) -> (r: Vault)
        requires
            key@.len() == KEY_LEN,
        ensures
            r.wf(),
            r.key_view() == key@,
            match stored {
                Some(s) => r.stored_view() == Some(s@),
                None => r.stored_view() is None,
            },
    {
        Vault { key, stored }
    }

    /// A vault over a freshly generated key, as on first run when no key
    /// file exists yet. Fails only if the system's random generator does.
    pub fn with_fresh_key() -> (r: Result<Vault, VaultError>)
        ensures
            r matches Ok(v) ==> v.wf() && v.stored_view() is None,
            r matches Err(e) ==> e == VaultError::IoFailure,
    {
        match generate_key_bytes() {
            Some(key) => Ok(Vault { key, stored: None }),
            None => Err(VaultError::IoFailure),
        }
    }

    /// The key bytes, for persisting to the key file.
    pub fn key_bytes(&self) -> (r: &Vec<u8>)
        ensures
            r@ == self.key_view(),
    {
        &self.key
    }

    /// The stored rendering, for persisting to the token file.
    pub fn encoded_token(&self) -> (r: Option<&String>)
        ensures
            match r {
                Some(s) => self.stored_view() == Some(s@),
                None => self.stored_view() is None,
            },
    {
        match &self.stored {
            Some(s) => Some(s),
            None => None,
        }
    }

    /// Whether a credential is stored; no decryption is attempted.
    pub fn has_credential(&self) -> (r: bool)
        ensures
            r == (self.stored_view() is Some),
    {
        match &self.stored {
            Some(_) => true,
            None => false,
        }
    }

    /// Encrypt `plaintext` under the vault's key with a fresh random nonce
    /// and store the rendering, replacing any previous one. On success the
    /// stored rendering opens back to exactly `plaintext`; the only failure
    /// is the random generator's, which leaves the vault unchanged.
    pub fn save_token(&mut self, plaintext: &str) -> (r: Result<(), VaultError>)
        requires
            old(self).wf(),
            encode_utf8(plaintext@).len() <= MAX_PLAINTEXT_LEN,
        ensures
            final(self).wf(),
            final(self).key_view() == old(self).key_view(),
            r matches Ok(()) ==> final(self).stored_view() is Some && exists|n: Seq<u8>|
                #[trigger] saved_token_ok(old(self).key_view(), n, plaintext@,
                    final(self).stored_view()->Some_0),
            r matches Err(e) ==> e == VaultError::IoFailure && *final(self) == *old(self),
    {
        let nonce = match generate_nonce_bytes() {
            Some(n) => n,
            None => {
                return Err(VaultError::IoFailure);
            },
        };
        match seal_token(&self.key, &nonce, plaintext) {
            Ok(enc) => {
                self.stored = Some(enc);
                proof {
                    assert(saved_token_ok(self.key_view(), nonce@, plaintext@,
                        final(self).stored_view()->Some_0));
                }
                Ok(())
            },
            Err(e) => Err(e),
        }
    }

    /// Decrypt and return the stored credential. Fails with `IoFailure` when
    /// nothing is stored, and otherwise classifies the stored rendering
    /// exactly as `open_outcome` does: a corrupted or tampered token
    /// surfaces as an error, never as a corrupted string.
    pub fn load_token(&self) -> (r: Result<String, VaultError>)
        requires
            self.wf(),
        ensures
            self.stored_view() is None ==> r == Err::<String, VaultError>(VaultError::IoFailure),
            self.stored_view() matches Some(enc) ==> match r {
                Ok(s) => open_outcome(self.key_view(), enc) == Ok::<Seq<char>, VaultError>(s@),
                Err(e) => open_outcome(self.key_view(), enc) == Err::<Seq<char>, VaultError>(e),
            },
    {
        match &self.stored {
            Some(enc) => open_token(&self.key, enc.as_str()),
            None => Err(VaultError::IoFailure),
        }
    }

    /// Remove the stored credential; removing when nothing is stored is not
    /// an error.
    pub fn delete_token(&mut self)
        ensures
            final(self).stored_view() is None,
            final(self).key_view() == old(self).key_view(),
            final(self).wf() == old(self).wf(),
    {
        self.stored = None;
    }
}

/// Whether a token is registered, given which of the two conventional token
/// files exists: the system-wide one or the local development one.
pub fn has_token(system_exists: bool, dev_exists: bool) -> (r: bool)
    ensures
        r == (system_exists || dev_exists),
{
    system_exists || dev_exists
}

/// Where the registered token lives, preferring the system-wide path, given
/// which of the two conventional token files exists.
pub fn get_token_location(system_exists: bool, dev_exists: bool) -> (r: &'static str)
    ensures
        system_exists ==> r@ == "/usr/local/etc/device-agent/.token"@,
        !system_exists && dev_exists ==> r@ == "./.token"@,
        !system_exists && !dev_exists ==> r@ == "Not registered"@,
{
    if system_exists {
        "/usr/local/etc/device-agent/.token"
    } else if dev_exists {
        "./.token"
    } else {
        "Not registered"
    }
}

/// Decode the textual contents of the key file into key bytes, rejecting
/// text that is not base64 and keys of the wrong length.
pub fn decode_key_text(text: &str) -> (r: Result<Vec<u8>, VaultError>)
    ensures
        match r {
            Ok(k) => b64_parse(text@) == Some(k@) && k@.len() == KEY_LEN,
            Err(e) => match b64_parse(text@) {
                None => e == VaultError::EncodeFailure,
                Some(b) => b.len() != KEY_LEN && e == VaultError::InvalidFormat,
            },
        },
{
    match b64_decode(text) {
        Some(k) => {
            if k.len() == KEY_LEN {
                Ok(k)
            } else {
                Err(VaultError::InvalidFormat)
            }
        },
        None => Err(VaultError::EncodeFailure),
    }
}

/// Render key bytes as the textual contents of the key file.
pub fn encode_key_text(key: &Vec<u8>) -> (r: String)
    requires
        key@.len() == KEY_LEN,
    ensures
        r@ == b64_encoding(key@),
{
    b64_encode(key)
}

} // verus!
