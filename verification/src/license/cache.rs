//! The license cache on disk: the serialized license data encrypted with
//! AES-256-GCM under a key derived from the machine id and the application secret,
//! stored as base64 text.

use vstd::prelude::*;
use vstd::utf8::encode_utf8;
use aes_gcm::aead::{Aead, AeadCore, KeyInit, OsRng};
use aes_gcm::{Aes256Gcm, Key, Nonce};
use base64::engine::general_purpose::STANDARD;
use base64::Engine;
use pbkdf2::pbkdf2_hmac;
use sha2::Sha256;

verus! {

#[verifier::external_type_specification]
#[verifier::external_body]
pub struct ExAeadError(aes_gcm::Error);

/// The 32-byte PBKDF2-HMAC-SHA256 key of a password, a salt and a round count.
pub uninterp spec fn pbkdf2_sha256_32(password: Seq<u8>, salt: Seq<u8>, rounds: u32) -> Seq<u8>;

/// The AES-256-GCM ciphertext (with its 16-byte tag) of a plaintext, without associated data.
pub uninterp spec fn aes256gcm_seal(key: Seq<u8>, nonce: Seq<u8>, plaintext: Seq<u8>) -> Seq<u8>;

/// The AES-256-GCM plaintext of a ciphertext, or `None` where it does not authenticate.
pub uninterp spec fn aes256gcm_open(key: Seq<u8>, nonce: Seq<u8>, ciphertext: Seq<u8>) -> Option<Seq<u8>>;

/// The standard, padded base64 text of some bytes.
pub uninterp spec fn base64_encode(bytes: Seq<u8>) -> Seq<char>;

/// The bytes of a standard, padded base64 text, or `None` where it is not one.
pub uninterp spec fn base64_decode(text: Seq<char>) -> Option<Seq<u8>>;

pub open spec fn bytes_opt(o: Option<Vec<u8>>) -> Option<Seq<u8>> {
    match o {
        Some(v) => Some(v@),
        None => None,
    }
}

/// The most bytes AES-GCM seals in one message.
pub open spec fn max_sealed() -> int {
    0x10_0000_0000
}

/// `pbkdf2::pbkdf2_hmac::<Sha256>` into a 32-byte buffer. The contract names the
/// key it derives; PBKDF2 itself is not restated.
#[verifier::external_body]
fn pbkdf2_key(password: &[u8], salt: &[u8], rounds: u32) -> (key: Vec<u8>)
    ensures
        key@ == pbkdf2_sha256_32(password@, salt@, rounds),
        key@.len() == 32,
{
    let mut key = [0u8; 32];
    pbkdf2_hmac::<Sha256>(password, salt, rounds, &mut key);
    key.to_vec()
}

/// `Aes256Gcm::generate_nonce(&mut OsRng)`: 12 bytes from the operating system's
/// random source. Only the length is stated: the bytes are random. (The call
/// panics when the operating system cannot provide randomness.)
#[verifier::external_body]
fn random_nonce() -> (n: Vec<u8>)
    ensures
        n@.len() == 12,
{
    Aes256Gcm::generate_nonce(&mut OsRng).to_vec()
}

/// `Aes256Gcm::new(key).encrypt(nonce, plaintext)`: fails exactly when the plaintext
/// is longer than 2^36 bytes; otherwise the ciphertext is the plaintext's length plus
/// the 16-byte tag, and decrypting it under the same key and nonce gives the
/// plaintext back. (Being a `Vec` of bytes, the ciphertext holds at most `isize::MAX` of them.)
#[verifier::external_body]
fn aes_encrypt(key: &[u8], nonce: &[u8], plaintext: &[u8]) -> (r: Result<Vec<u8>, aes_gcm::Error>)
    requires
        key@.len() == 32,
        nonce@.len() == 12,
    ensures
        r is Ok <==> plaintext@.len() <= max_sealed(),
        r matches Ok(c) ==> c@ == aes256gcm_seal(key@, nonce@, plaintext@),
        r matches Ok(c) ==> c@.len() == plaintext@.len() + 16 && c@.len() <= isize::MAX,
        r matches Ok(c) ==> aes256gcm_open(key@, nonce@, c@) == Some(plaintext@),
{
    let cipher = Aes256Gcm::new(Key::<Aes256Gcm>::from_slice(key));
    cipher.encrypt(Nonce::from_slice(nonce), plaintext)
}

/// `Aes256Gcm::new(key).decrypt(nonce, ciphertext).ok()`.
#[verifier::external_body]
fn aes_decrypt(key: &[u8], nonce: &[u8], ciphertext: &[u8]) -> (r: Option<Vec<u8>>)
    requires
        key@.len() == 32,
        nonce@.len() == 12,
    ensures
        bytes_opt(r) == aes256gcm_open(key@, nonce@, ciphertext@),
{
    let cipher = Aes256Gcm::new(Key::<Aes256Gcm>::from_slice(key));
    cipher.decrypt(Nonce::from_slice(nonce), ciphertext).ok()
}

/// The `Display` text of `aead::Error`, which that impl writes as "aead::Error".
#[verifier::external_body]
fn aead_error_text(e: &aes_gcm::Error) -> (t: String)
    ensures
        t@ == "aead::Error"@,
{
    format!("{}", e)
}

/// `STANDARD.encode(bytes)`: padded base64; decoding the text gives the bytes back.
#[verifier::external_body]
fn b64_encode(bytes: &[u8]) -> (s: String)
    requires
        bytes@.len() <= isize::MAX,
    ensures
        s@ == base64_encode(bytes@),
        base64_decode(s@) == Some(bytes@),
{
    STANDARD.encode(bytes)
}

/// `STANDARD.decode(text).ok()`.
#[verifier::external_body]
fn b64_decode(text: &str) -> (r: Option<Vec<u8>>)
    ensures
        bytes_opt(r) == base64_decode(text@),
{
    STANDARD.decode(text).ok()
}

/// The salt of the key derivation.
pub const KEY_SALT: &'static str = "autocapcut-license-v2";

/// The PBKDF2 rounds of the key derivation.
pub const KEY_ROUNDS: u32 = 10_000;

/// The cache key of a machine: PBKDF2-HMAC-SHA256 over "<machine id>:<secret>".
pub open spec fn cache_key(machine_id: Seq<char>, secret: Seq<char>) -> Seq<u8> {
    pbkdf2_sha256_32(encode_utf8(machine_id + ":"@ + secret), encode_utf8(KEY_SALT@), KEY_ROUNDS)
}

/// Derives the cache key of a machine.
pub fn derive_key(machine_id: &str, secret: &str) -> (key: Vec<u8>)
    ensures
        key@ == cache_key(machine_id@, secret@),
        key@.len() == 32,
{
    let mut password = String::from_str(machine_id);
    password.append(":");
    password.append(secret);
    pbkdf2_key(password.as_str().as_bytes(), KEY_SALT.as_bytes(), KEY_ROUNDS)
}

/// The file format version this cache writes and reads.
pub const CACHE_VERSION: u8 = 2;

/// The cache file: a version, and the base64 texts of the nonce and the ciphertext.
pub struct CacheFile {
    pub version: u8,
    pub nonce: String,
    pub ciphertext: String,
}

pub struct CacheFileView {
    pub version: u8,
    pub nonce: Seq<char>,
    pub ciphertext: Seq<char>,
}

impl View for CacheFile {
    type V = CacheFileView;

    open spec fn view(&self) -> CacheFileView {
        CacheFileView { version: self.version, nonce: self.nonce@, ciphertext: self.ciphertext@ }
    }
}

/// Reading a cache file does not reach a nonce of the wrong length (which the
/// AES-GCM nonce conversion refuses by panicking).
pub open spec fn cache_nonce_fits(f: CacheFileView) -> bool {
    f.version == CACHE_VERSION && base64_decode(f.nonce) is Some && base64_decode(f.ciphertext) is Some
        ==> base64_decode(f.nonce)->0.len() == 12
}

/// What reading a cache file gives: the plaintext, or `None` for another version,
/// text that is not base64, or a ciphertext that does not authenticate under the
/// machine's key.
pub open spec fn spec_open_cache(f: CacheFileView, machine_id: Seq<char>, secret: Seq<char>) -> Option<Seq<u8>> {
    if f.version != CACHE_VERSION {
        None
    } else {
        match (base64_decode(f.nonce), base64_decode(f.ciphertext)) {
            (Some(n), Some(c)) => aes256gcm_open(cache_key(machine_id, secret), n, c),
            _ => None,
        }
    }
}

pub open spec fn seal_result_view(r: Result<CacheFile, String>) -> Result<CacheFileView, Seq<char>> {
    match r {
        Ok(f) => Ok(f@),
        Err(e) => Err(e@),
    }
}

/// Encrypts the serialized license data for this machine under a fresh random nonce.
/// Reading the file back on the same machine with the same secret gives the data back.
pub fn seal_license_cache(plaintext: &[u8], machine_id: &str, secret: &str) -> (r: Result<CacheFile, String>)
    ensures
        r is Ok <==> plaintext@.len() <= max_sealed(),
        r matches Err(e) ==> e@ == "Encrypt thất bại: "@ + "aead::Error"@,
        r matches Ok(f) ==> f.version == CACHE_VERSION && exists|n: Seq<u8>|
            n.len() == 12 && f.nonce@ == base64_encode(n) && f.ciphertext@ == base64_encode(
                aes256gcm_seal(cache_key(machine_id@, secret@), n, plaintext@),
            ),
        r matches Ok(f) ==> cache_nonce_fits(f@),
        r matches Ok(f) ==> spec_open_cache(f@, machine_id@, secret@) == Some(plaintext@),
{
    let key = derive_key(machine_id, secret);
    let nonce = random_nonce();
    match aes_encrypt(key.as_slice(), nonce.as_slice(), plaintext) {
        Err(e) => {
            let mut m = String::from_str("Encrypt thất bại: ");
            let t = aead_error_text(&e);
            m.append(t.as_str());
            Err(m)
        },
        Ok(ciphertext) => {
            let f = CacheFile {
                version: CACHE_VERSION,
                nonce: b64_encode(nonce.as_slice()),
                ciphertext: b64_encode(ciphertext.as_slice()),
            };
            Ok(f)
        },
    }
}

/// Decrypts a cache file for this machine.
pub fn open_license_cache(file: &CacheFile, machine_id: &str, secret: &str) -> (r: Option<Vec<u8>>)
    requires
        cache_nonce_fits(file@),
    ensures
        bytes_opt(r) == spec_open_cache(file@, machine_id@, secret@),
{
    if file.version != CACHE_VERSION {
        return None;
    }
    let key = derive_key(machine_id, secret);
    let nonce = match b64_decode(file.nonce.as_str()) {
        Some(n) => n,
        None => return None,
    };
    let ciphertext = match b64_decode(file.ciphertext.as_str()) {
        Some(c) => c,
        None => return None,
    };
    aes_decrypt(key.as_slice(), nonce.as_slice(), ciphertext.as_slice())
}

/// Decrypts a cache file for this machine, or gives `None` where its nonce has the
/// wrong length (which [`open_license_cache`] does not accept).
pub fn load_license_cache(file: &CacheFile, machine_id: &str, secret: &str) -> (r: Option<Option<Vec<u8>>>)
    ensures
        r is None <==> !cache_nonce_fits(file@),
        r matches Some(x) ==> bytes_opt(x) == spec_open_cache(file@, machine_id@, secret@),
{
    if file.version == CACHE_VERSION {
        match (b64_decode(file.nonce.as_str()), b64_decode(file.ciphertext.as_str())) {
            (Some(n), Some(_)) => {
                if n.len() != 12 {
                    return None;
                }
            },
            _ => {},
        }
    }
    Some(open_license_cache(file, machine_id, secret))
}

} // verus!
