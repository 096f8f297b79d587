//! Password-based key derivation, password verification hashes, and the
//! authenticated encryption of the record store.
use vstd::prelude::*;
use vstd::string::StringSliceAdditionalSpecFns;

use crate::error::VaultError;
use aes_gcm::aead::{Aead, KeyInit};
use aes_gcm::{Aes256Gcm, Nonce};
use argon2::password_hash::{PasswordHasher, SaltString};
use argon2::{Argon2, PasswordHash, PasswordVerifier};
use rand::rngs::OsRng;
use rand::RngCore;

verus! {

/// Length of the nonce that starts every sealed blob.
pub const NONCE_SIZE: usize = 12;

/// Length of the key-derivation salt.
pub const SALT_SIZE: usize = 32;

/// Length of the authentication tag that ends every sealed blob.
pub const TAG_SIZE: usize = 16;

/// Largest plaintext the cipher accepts, in bytes (2^36).
pub const MAX_PLAINTEXT: u64 = 0x10_0000_0000;

/// Length of the random salt inside a password verification hash.
pub const HASH_SALT_SIZE: usize = 16;

/// Shortest salt Argon2 accepts.
pub const MIN_SALT_LEN: usize = 8;

/// Longest password or salt Argon2 accepts.
pub const MAX_ARGON2_LEN: u64 = 0xFFFF_FFFF;

#[verifier::external_type_specification]
#[verifier::external_body]
pub struct ExAeadError(aes_gcm::Error);

#[verifier::external_type_specification]
#[verifier::external_body]
pub struct ExArgon2Error(argon2::Error);

#[verifier::external_type_specification]
#[verifier::external_body]
pub struct ExPasswordHashError(argon2::password_hash::Error);

#[verifier::external_type_specification]
#[verifier::external_body]
pub struct ExRandError(rand::Error);

/// The 32 bytes that Argon2id with its default parameters computes from a
/// password and a salt.
pub uninterp spec fn argon2id_key(password: Seq<u8>, salt: Seq<u8>) -> Seq<u8>;

/// AES-256-GCM output (ciphertext followed by the tag) for a plaintext under
/// a key and a nonce, with no associated data.
pub uninterp spec fn gcm_seal(key: Seq<u8>, nonce: Seq<u8>, plaintext: Seq<u8>) -> Seq<u8>;

/// What checking a password against a PHC-format hash string gives: `None`
/// where the string does not parse, else whether the password matches.
pub uninterp spec fn phc_check(hash: Seq<char>, password: Seq<u8>) -> Option<bool>;

/// Whether Argon2 accepts a password and a salt of these lengths.
pub open spec fn argon2_inputs_ok(password: Seq<u8>, salt: Seq<u8>) -> bool {
    &&& password.len() <= MAX_ARGON2_LEN
    &&& MIN_SALT_LEN <= salt.len() <= MAX_ARGON2_LEN
}

/// The password factor of a password and a salt, where Argon2 accepts them.
pub open spec fn password_factor(password: Seq<u8>, salt: Seq<u8>) -> Option<Seq<u8>> {
    if argon2_inputs_ok(password, salt) {
        Some(argon2id_key(password, salt))
    } else {
        None
    }
}

/// What `derive_key` returns for a password and a salt.
pub open spec fn derive_key_outcome(
    password: Seq<u8>,
    salt: Seq<u8>,
    r: Result<[u8; 32], VaultError>,
) -> bool {
    match r {
        Ok(k) => password_factor(password, salt) == Some(k@),
        Err(e) => password_factor(password, salt) is None && e == VaultError::DerivationError,
    }
}

/// `blob` is a sealing of `m` under `key`: a nonce, then the cipher's output
/// for `m` under that key and nonce.
pub open spec fn is_sealing_of(blob: Seq<u8>, key: Seq<u8>, m: Seq<u8>) -> bool {
    &&& blob.len() >= NONCE_SIZE
    &&& blob.subrange(NONCE_SIZE as int, blob.len() as int) == gcm_seal(
        key,
        blob.subrange(0, NONCE_SIZE as int),
        m,
    )
}

/// The view of a byte-vector result.
pub open spec fn bytes_result(r: Result<Vec<u8>, VaultError>) -> Result<Seq<u8>, VaultError> {
    match r {
        Ok(v) => Ok(v@),
        Err(e) => Err(e),
    }
}

/// What opening `blob` under `key` gives: a format error for a blob shorter
/// than a nonce; else exactly the message that the blob is a sealing of, and an
/// integrity error where there is none.
pub open spec fn open_outcome(
    blob: Seq<u8>,
    key: Seq<u8>,
    r: Result<Seq<u8>, VaultError>,
) -> bool {
    if blob.len() < NONCE_SIZE {
        r == Err::<Seq<u8>, VaultError>(VaultError::FormatError)
    } else {
        &&& (r is Err ==> r == Err::<Seq<u8>, VaultError>(VaultError::IntegrityError))
        &&& (r is Ok ==> blob.len() >= NONCE_SIZE + TAG_SIZE && is_sealing_of(blob, key, r->Ok_0))
        &&& forall|m: Seq<u8>|
            m.len() <= MAX_PLAINTEXT ==> (#[trigger] is_sealing_of(blob, key, m) <==> r == Ok::<
                Seq<u8>,
                VaultError,
            >(m))
    }
}

/// Relies on argon2's `Argon2::hash_password_into` with the default (Argon2id)
/// parameters: with a 32-byte output it fails only on a password or salt
/// length out of range, and otherwise writes bytes that depend on the password
/// and the salt alone.
#[verifier::external_body]
fn argon2_hash_into(password: &[u8], salt: &[u8]) -> (r: Result<[u8; 32], argon2::Error>)
    ensures
        r is Ok <==> argon2_inputs_ok(password@, salt@),
        r is Ok ==> r->Ok_0@ == argon2id_key(password@, salt@),
{
    let mut out = [0u8; 32];
    Argon2::default().hash_password_into(password, salt, &mut out).map(|_| out)
}

/// Relies on rand's `RngCore::try_fill_bytes` on `OsRng`: the buffer is
/// filled from the operating system's secure random source, or the source's
/// failure is reported. Nothing is promised of the bytes.
#[verifier::external_body]
fn os_random_bytes(len: usize) -> (r: Result<Vec<u8>, rand::Error>)
    ensures
        r is Ok ==> r->Ok_0@.len() == len,
{
    let mut buf = vec![0u8; len];
    OsRng.try_fill_bytes(&mut buf).map(|_| buf)
}

/// Relies on aes-gcm's `Aead::encrypt` for `Aes256Gcm`: it refuses a
/// plaintext longer than 2^36 bytes, and otherwise returns the ciphertext and
/// the 16-byte tag, a function of key, nonce and plaintext.
#[verifier::external_body]
fn aes_gcm_encrypt(key: &[u8; 32], nonce: &[u8; NONCE_SIZE], data: &[u8]) -> (r: Result<
    Vec<u8>,
    aes_gcm::Error,
>)
    ensures
        r is Ok <==> data@.len() <= MAX_PLAINTEXT,
        r is Ok ==> r->Ok_0@ == gcm_seal(key@, nonce@, data@),
        r is Ok ==> r->Ok_0@.len() == data@.len() + TAG_SIZE,
{
    let cipher = Aes256Gcm::new(key.into());
    cipher.encrypt(Nonce::from_slice(nonce), data)
}

/// Relies on aes-gcm's `Aead::decrypt` for `Aes256Gcm`: it splits off the
/// 16-byte tag, recomputes the tag over the rest and, only where it matches,
/// undoes the keystream. So it returns `m` exactly when the input is what
/// `encrypt` gives for `m` under the same key and nonce.
#[verifier::external_body]
fn aes_gcm_decrypt(key: &[u8; 32], nonce: &[u8; NONCE_SIZE], ciphertext: &[u8]) -> (r: Result<
    Vec<u8>,
    aes_gcm::Error,
>)
    ensures
        forall|m: Seq<u8>|
            m.len() <= MAX_PLAINTEXT ==> (#[trigger] gcm_seal(key@, nonce@, m) == ciphertext@ <==> (
            r is Ok && r->Ok_0@ == m)),
        r is Ok ==> gcm_seal(key@, nonce@, r->Ok_0@) == ciphertext@,
        r is Ok ==> ciphertext@.len() == r->Ok_0@.len() + TAG_SIZE,
{
    let cipher = Aes256Gcm::new(key.into());
    cipher.decrypt(Nonce::from_slice(nonce), ciphertext)
}

/// Relies on password-hash's `SaltString::encode_b64` (16 bytes always
/// encode) and argon2's `PasswordHasher::hash_password` with default Argon2id
/// parameters, which fails only on a password longer than 0xFFFFFFFF bytes.
/// The PHC string it returns accepts the same password.
#[verifier::external_body]
fn argon2_phc_hash(password: &[u8], salt: &[u8; HASH_SALT_SIZE]) -> (r: Result<
    String,
    argon2::password_hash::Error,
>)
    ensures
        r is Ok <==> password@.len() <= MAX_ARGON2_LEN,
        r is Ok ==> phc_check(r->Ok_0@, password@) == Some(true),
{
    let salt = SaltString::encode_b64(salt)?;
    Argon2::default().hash_password(password, &salt).map(|h| h.to_string())
}

/// Relies on password-hash's `PasswordHash::new`, which parses the PHC string,
/// and argon2's `PasswordVerifier::verify_password`, which recomputes the hash
/// with the parameters the string holds.
#[verifier::external_body]
fn argon2_phc_verify(password: &[u8], hash: &str) -> (r: Result<bool, argon2::password_hash::Error>)
    ensures
        r is Err <==> phc_check(hash@, password@) is None,
        r is Ok ==> phc_check(hash@, password@) == Some(r->Ok_0),
{
    let parsed = PasswordHash::new(hash)?;
    Ok(Argon2::default().verify_password(password, &parsed).is_ok())
}

/// Derives a 256-bit key from a password using Argon2id.
pub fn derive_key(password: &str, salt: &[u8]) -> (r: Result<[u8; 32], VaultError>)
    ensures
        derive_key_outcome(password.spec_bytes(), salt@, r),
{
    match argon2_hash_into(password.as_bytes(), salt) {
        Ok(key) => Ok(key),
        Err(_) => Err(VaultError::DerivationError),
    }
}

/// Deriving the password factor is deterministic: two derivations from the
/// same password and salt have the same outcome, and give the same key.
pub proof fn lemma_password_factor_deterministic(
    password: Seq<u8>,
    salt: Seq<u8>,
    r1: Result<[u8; 32], VaultError>,
    r2: Result<[u8; 32], VaultError>,
)
    requires
        derive_key_outcome(password, salt, r1),
        derive_key_outcome(password, salt, r2),
    ensures
        r1 is Ok <==> r2 is Ok,
        r1 is Ok ==> r1->Ok_0@ == r2->Ok_0@,
        r1 is Err ==> r1 == r2,
{
}

/// Fills an array from the operating system's random source.
pub fn random_array<const N: usize>() -> (r: Result<[u8; N], VaultError>)
    ensures
        r is Err ==> r->Err_0 == VaultError::RandomnessUnavailable,
{
    let bytes = match os_random_bytes(N) {
        Ok(b) => b,
        Err(_) => {
            return Err(VaultError::RandomnessUnavailable);
        },
    };
    let mut out = [0u8; N];
    let mut i: usize = 0;
    while i < N
        invariant
            bytes@.len() == N,
        decreases N - i,
    {
        out[i] = bytes[i];
        i = i + 1;
    }
    Ok(out)
}

/// Generates a random salt for key derivation.
pub fn generate_salt() -> (r: Result<[u8; SALT_SIZE], VaultError>)
    ensures
        r is Err ==> r->Err_0 == VaultError::RandomnessUnavailable,
{
    random_array::<SALT_SIZE>()
}

/// Seals `data` under `key` with the given nonce: the nonce, then the
/// ciphertext and tag.
pub fn seal_with_nonce(data: &[u8], key: &[u8; 32], nonce: &[u8; NONCE_SIZE]) -> (r: Result<
    Vec<u8>,
    VaultError,
>)
    ensures
        r is Ok <==> data@.len() <= MAX_PLAINTEXT,
        r is Ok ==> r->Ok_0@ == nonce@ + gcm_seal(key@, nonce@, data@),
        r is Ok ==> r->Ok_0@.len() == NONCE_SIZE + data@.len() + TAG_SIZE,
        r is Err ==> r->Err_0 == VaultError::FormatError,
{
    match aes_gcm_encrypt(key, nonce, data) {
        Ok(sealed) => {
            let mut sealed = sealed;
            let mut out: Vec<u8> = Vec::new();
            let mut i: usize = 0;
            while i < NONCE_SIZE
                invariant
                    i <= NONCE_SIZE,
                    out@ == nonce@.subrange(0, i as int),
                decreases NONCE_SIZE - i,
            {
                out.push(nonce[i]);
                i = i + 1;
            }
            assert(nonce@.subrange(0, NONCE_SIZE as int) =~= nonce@);
            out.append(&mut sealed);
            Ok(out)
        },
        Err(_) => Err(VaultError::FormatError),
    }
}

/// Encrypts `data` under `key` with AES-256-GCM and a fresh random nonce.
pub fn encrypt(data: &[u8], key: &[u8; 32]) -> (r: Result<Vec<u8>, VaultError>)
    ensures
        data@.len() <= MAX_PLAINTEXT ==> r is Ok || r == Err::<Vec<u8>, VaultError>(
            VaultError::RandomnessUnavailable,
        ),
        data@.len() > MAX_PLAINTEXT ==> r is Err,
        r is Err ==> r->Err_0 == VaultError::FormatError || r->Err_0
            == VaultError::RandomnessUnavailable,
        r is Ok ==> is_sealing_of(r->Ok_0@, key@, data@),
        r is Ok ==> r->Ok_0@.len() == NONCE_SIZE + data@.len() + TAG_SIZE,
{
    let nonce = random_array::<NONCE_SIZE>()?;
    let r = seal_with_nonce(data, key, &nonce);
    if let Ok(blob) = &r {
        assert(blob@.subrange(0, NONCE_SIZE as int) =~= nonce@);
        assert(blob@.subrange(NONCE_SIZE as int, blob@.len() as int) =~= gcm_seal(
            key@,
            nonce@,
            data@,
        ));
    }
    r
}

/// Decrypts a blob made by `encrypt`, authenticating it first.
pub fn decrypt(encrypted_data: &[u8], key: &[u8; 32]) -> (r: Result<Vec<u8>, VaultError>)
    ensures
        open_outcome(encrypted_data@, key@, bytes_result(r)),
{
    let len = encrypted_data.len();
    if len < NONCE_SIZE {
        return Err(VaultError::FormatError);
    }
    let mut nonce = [0u8; NONCE_SIZE];
    let mut i: usize = 0;
    while i < NONCE_SIZE
        invariant
            len == encrypted_data@.len(),
            NONCE_SIZE <= len,
            i <= NONCE_SIZE,
            forall|j: int| 0 <= j < i ==> nonce@[j] == encrypted_data@[j],
        decreases NONCE_SIZE - i,
    {
        nonce[i] = encrypted_data[i];
        i = i + 1;
    }
    let mut ciphertext: Vec<u8> = Vec::new();
    let mut j: usize = NONCE_SIZE;
    while j < len
        invariant
            len == encrypted_data@.len(),
            NONCE_SIZE <= j <= len,
            ciphertext@ == encrypted_data@.subrange(NONCE_SIZE as int, j as int),
        decreases len - j,
    {
        ciphertext.push(encrypted_data[j]);
        j = j + 1;
    }
    let ghost blob = encrypted_data@;
    assert(nonce@ =~= blob.subrange(0, NONCE_SIZE as int));
    let r = aes_gcm_decrypt(key, &nonce, ciphertext.as_slice());
    let out = match r {
        Ok(plain) => Ok(plain),
        Err(_) => Err(VaultError::IntegrityError),
    };
    assert forall|m: Seq<u8>| m.len() <= MAX_PLAINTEXT implies (#[trigger] is_sealing_of(
        blob,
        key@,
        m,
    ) <==> bytes_result(out) == Ok::<Seq<u8>, VaultError>(m)) by {
        assert(gcm_seal(key@, nonce@, m) == ciphertext@ <==> (r is Ok && r->Ok_0@ == m));
    }
    out
}

/// Opening a sealing of `m` under the key it was sealed with gives back `m`.
pub proof fn lemma_open_seal_round_trip(
    key: Seq<u8>,
    m: Seq<u8>,
    blob: Seq<u8>,
    opened: Result<Seq<u8>, VaultError>,
)
    requires
        m.len() <= MAX_PLAINTEXT,
        is_sealing_of(blob, key, m),
        open_outcome(blob, key, opened),
    ensures
        opened == Ok::<Seq<u8>, VaultError>(m),
{
}

/// Opening a blob that differs from a sealing of `m` only after its nonce
/// (in ciphertext or tag) never gives back `m`: it fails with an integrity
/// error, or gives a message that the altered blob is itself a sealing of.
pub proof fn lemma_tampered_blob_never_opens_to_sealed_message(
    key: Seq<u8>,
    m: Seq<u8>,
    blob: Seq<u8>,
    tampered: Seq<u8>,
    opened: Result<Seq<u8>, VaultError>,
)
    requires
        m.len() <= MAX_PLAINTEXT,
        is_sealing_of(blob, key, m),
        tampered.len() == blob.len(),
        tampered.subrange(0, NONCE_SIZE as int) == blob.subrange(0, NONCE_SIZE as int),
        tampered != blob,
        open_outcome(tampered, key, opened),
    ensures
        opened != Ok::<Seq<u8>, VaultError>(m),
        opened is Err ==> opened == Err::<Seq<u8>, VaultError>(VaultError::IntegrityError),
        opened is Ok && opened->Ok_0.len() <= MAX_PLAINTEXT ==> is_sealing_of(
            tampered,
            key,
            opened->Ok_0,
        ),
{
    if opened == Ok::<Seq<u8>, VaultError>(m) {
        assert(is_sealing_of(tampered, key, m));
        assert(tampered =~= tampered.subrange(0, NONCE_SIZE as int) + tampered.subrange(
            NONCE_SIZE as int,
            tampered.len() as int,
        ));
        assert(blob =~= blob.subrange(0, NONCE_SIZE as int) + blob.subrange(
            NONCE_SIZE as int,
            blob.len() as int,
        ));
    }
    if opened is Ok && opened->Ok_0.len() <= MAX_PLAINTEXT {
        assert(is_sealing_of(tampered, key, opened->Ok_0));
    }
}

/// Hashes a password for verification (not for key derivation) into a PHC
/// string that carries `salt`, the hash's own salt.
pub fn hash_password_with_salt(password: &str, salt: &[u8; HASH_SALT_SIZE]) -> (r: Result<
    String,
    VaultError,
>)
    ensures
        r is Ok <==> password.spec_bytes().len() <= MAX_ARGON2_LEN,
        r is Ok ==> phc_check(r->Ok_0@, password.spec_bytes()) == Some(true),
        r is Err ==> r->Err_0 == VaultError::DerivationError,
{
    match argon2_phc_hash(password.as_bytes(), salt) {
        Ok(h) => Ok(h),
        Err(_) => Err(VaultError::DerivationError),
    }
}

/// Hashes a password for verification (not for key derivation), with a fresh
/// random salt of the hash's own.
pub fn hash_password(password: &str) -> (r: Result<String, VaultError>)
    ensures
        r is Ok ==> phc_check(r->Ok_0@, password.spec_bytes()) == Some(true),
        password.spec_bytes().len() <= MAX_ARGON2_LEN ==> r is Ok || r == Err::<String, VaultError>(
            VaultError::RandomnessUnavailable,
        ),
        password.spec_bytes().len() > MAX_ARGON2_LEN ==> r is Err,
        r is Err ==> r->Err_0 == VaultError::DerivationError || r->Err_0
            == VaultError::RandomnessUnavailable,
{
    let salt = random_array::<HASH_SALT_SIZE>()?;
    hash_password_with_salt(password, &salt)
}

/// Checks a password against a verification hash; a hash that does not parse
/// is a format error.
pub fn verify_password(password: &str, hash: &str) -> (r: Result<bool, VaultError>)
    ensures
        r is Err <==> phc_check(hash@, password.spec_bytes()) is None,
        r is Ok ==> phc_check(hash@, password.spec_bytes()) == Some(r->Ok_0),
        r is Err ==> r->Err_0 == VaultError::FormatError,
{
    match argon2_phc_verify(password.as_bytes(), hash) {
        Ok(b) => Ok(b),
        Err(_) => Err(VaultError::FormatError),
    }
}

} // verus!
