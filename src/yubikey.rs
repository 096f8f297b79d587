//! The hardware second factor: the challenge sent to a token, the key
//! component drawn from its response, and how that component is combined with
//! the password factor.
use vstd::prelude::*;
use vstd::string::StringSliceAdditionalSpecFns;

use crate::crypto::{bytes_result, derive_key, password_factor};
use crate::error::VaultError;
use hkdf::Hkdf;
use sha2::Sha256;
use zeroize::Zeroize;

verus! {

/// Length of the challenge sent to the token.
pub const CHALLENGE_SIZE: usize = 64;

/// Context string of the expansion that turns a token response into a key component.
pub const YUBIKEY_INFO: &'static str = "aliaser-yubikey-v1";

/// Context string of the expansion that combines the two factors.
pub const COMBINED_INFO: &'static str = "aliaser-combined-key-v1";

/// A hardware second factor: a presence probe and a challenge–response
/// exchange against a fixed slot. The same challenge is expected to give the
/// same response every time.
pub trait HardwareToken {
    /// Whether a token is present now.
    fn is_present(&mut self) -> bool;

    /// The token's response to a challenge.
    fn respond(&mut self, challenge: &[u8; CHALLENGE_SIZE]) -> Result<Vec<u8>, VaultError>;
}

/// A token source that never finds a token.
pub struct NoToken;

impl HardwareToken for NoToken {
    fn is_present(&mut self) -> bool {
        false
    }

    fn respond(&mut self, challenge: &[u8; CHALLENGE_SIZE]) -> Result<Vec<u8>, VaultError> {
        Err(VaultError::HardwareUnavailable)
    }
}

#[verifier::external_type_specification]
#[verifier::external_body]
pub struct ExInvalidLength(hkdf::InvalidLength);

/// The 32 bytes of HKDF-SHA256 (extract, then expand) for an optional salt,
/// input keying material and a context string.
pub uninterp spec fn hkdf_sha256(salt: Option<Seq<u8>>, ikm: Seq<u8>, info: Seq<u8>) -> Seq<u8>;

/// The view of an optional byte slice.
pub open spec fn opt_bytes(s: Option<&[u8]>) -> Option<Seq<u8>> {
    match s {
        Some(b) => Some(b@),
        None => None,
    }
}

/// Relies on hkdf's `Hkdf::<Sha256>::new` and `Hkdf::expand`: expansion to 32
/// bytes (at most 255 * 32 are allowed) always succeeds, and the output
/// depends on salt, keying material and context alone.
#[verifier::external_body]
fn hkdf_sha256_32(salt: Option<&[u8]>, ikm: &[u8], info: &[u8]) -> (r: Result<
    [u8; 32],
    hkdf::InvalidLength,
>)
    ensures
        r is Ok,
        r->Ok_0@ == hkdf_sha256(opt_bytes(salt), ikm@, info@),
{
    let hk = Hkdf::<Sha256>::new(salt, ikm);
    let mut okm = [0u8; 32];
    hk.expand(info, &mut okm).map(|_| okm)
}

/// Relies on zeroize's `Zeroize` for byte arrays: every byte is set to zero,
/// with writes the compiler does not elide; it neither panics nor blocks.
#[verifier::external_body]
pub(crate) fn zeroize_bytes<const N: usize>(buf: &mut [u8; N])
    ensures
        forall|i: int| 0 <= i < N ==> final(buf)@[i] == 0u8,
    opens_invariants none
    no_unwind
{
    buf.zeroize();
}

/// The challenge for a salt: its first 64 bytes, padded with zeros.
pub open spec fn challenge_of(salt: Seq<u8>) -> Seq<u8> {
    Seq::new(
        CHALLENGE_SIZE as nat,
        |i: int|
            if i < salt.len() {
                salt[i]
            } else {
                0u8
            },
    )
}

/// The key component drawn from a token's response to the challenge of `salt`.
pub open spec fn hardware_factor(salt: Seq<u8>, response: Seq<u8>) -> Seq<u8> {
    hkdf_sha256(Some(salt), response, YUBIKEY_INFO.spec_bytes())
}

/// The vault key made of a password factor and a hardware factor.
pub open spec fn combined_key(password_key: Seq<u8>, hardware_key: Seq<u8>) -> Seq<u8> {
    hkdf_sha256(None, password_key + hardware_key, COMBINED_INFO.spec_bytes())
}

/// The vault key for a password and a salt, with the token's response where
/// the hardware factor is used; `None` where the password factor cannot be
/// derived or the response is empty.
pub open spec fn vault_key(password: Seq<u8>, salt: Seq<u8>, response: Option<Seq<u8>>) -> Option<
    Seq<u8>,
> {
    match password_factor(password, salt) {
        None => None,
        Some(p) => match response {
            None => Some(p),
            Some(resp) => if resp.len() == 0 {
                None
            } else {
                Some(combined_key(p, hardware_factor(salt, resp)))
            },
        },
    }
}

/// The view of a key result.
pub open spec fn bytes32_result(r: Result<[u8; 32], VaultError>) -> Result<Seq<u8>, VaultError> {
    match r {
        Ok(k) => Ok(k@),
        Err(e) => Err(e),
    }
}

/// The view of an optional token answer.
pub open spec fn opt_answer(a: Option<Result<Vec<u8>, VaultError>>) -> Option<
    Result<Seq<u8>, VaultError>,
> {
    match a {
        Some(r) => Some(bytes_result(r)),
        None => None,
    }
}

/// The key component a token's answer gives: a failed exchange or an empty
/// response is a hardware error.
pub open spec fn component_outcome(salt: Seq<u8>, answer: Result<Seq<u8>, VaultError>) -> Result<
    Seq<u8>,
    VaultError,
> {
    match answer {
        Err(_) => Err(VaultError::HardwareError),
        Ok(resp) => if resp.len() == 0 {
            Err(VaultError::HardwareError)
        } else {
            Ok(hardware_factor(salt, resp))
        },
    }
}

/// The vault key from a password factor and, where the token was asked, its
/// answer.
pub open spec fn factors_outcome(
    password_key: Seq<u8>,
    salt: Seq<u8>,
    answer: Option<Result<Seq<u8>, VaultError>>,
) -> Result<Seq<u8>, VaultError> {
    match answer {
        None => Ok(password_key),
        Some(a) => match component_outcome(salt, a) {
            Err(e) => Err(e),
            Ok(h) => Ok(combined_key(password_key, h)),
        },
    }
}

/// The vault key for a password and a salt, given whether the hardware factor
/// is on, whether a token was found, and the token's answer to the challenge
/// of `salt`: an absent token is reported before anything is derived.
pub open spec fn vault_key_outcome(
    password: Seq<u8>,
    salt: Seq<u8>,
    hardware: bool,
    present: bool,
    answer: Result<Seq<u8>, VaultError>,
) -> Result<Seq<u8>, VaultError> {
    if hardware && !present {
        Err(VaultError::HardwareUnavailable)
    } else {
        match password_factor(password, salt) {
            None => Err(VaultError::DerivationError),
            Some(p) => factors_outcome(
                p,
                salt,
                if hardware {
                    Some(answer)
                } else {
                    None
                },
            ),
        }
    }
}

/// Builds the 64-byte challenge for a salt: the salt's bytes first, truncated
/// or padded with zeros.
pub fn hardware_challenge(salt: &[u8]) -> (r: [u8; CHALLENGE_SIZE])
    ensures
        r@ == challenge_of(salt@),
{
    let mut challenge = [0u8; CHALLENGE_SIZE];
    let len = if salt.len() < CHALLENGE_SIZE {
        salt.len()
    } else {
        CHALLENGE_SIZE
    };
    let mut i: usize = 0;
    while i < len
        invariant
            len <= CHALLENGE_SIZE,
            len <= salt@.len(),
            len == salt@.len() || len == CHALLENGE_SIZE,
            i <= len,
            forall|j: int| 0 <= j < i ==> challenge@[j] == salt@[j],
            forall|j: int| i <= j < CHALLENGE_SIZE ==> challenge@[j] == 0u8,
        decreases len - i,
    {
        challenge[i] = salt[i];
        i = i + 1;
    }
    assert(challenge@ =~= challenge_of(salt@));
    challenge
}

/// Turns a token's response to the challenge of `salt` into a 32-byte key
/// component.
pub fn key_component_from_response(salt: &[u8], response: &[u8]) -> (r: [u8; 32])
    ensures
        r@ == hardware_factor(salt@, response@),
{
    proof {
        reveal_strlit("aliaser-yubikey-v1");
    }
    match hkdf_sha256_32(Some(salt), response, YUBIKEY_INFO.as_bytes()) {
        Ok(k) => k,
        Err(_) => [0u8; 32],
    }
}

/// The key component for the token's answer to the challenge of `salt`: a
/// failed exchange or an empty response is a hardware error.
pub fn key_component_from_answer(salt: &[u8], answer: Result<Vec<u8>, VaultError>) -> (r: Result<
    [u8; 32],
    VaultError,
>)
    ensures
        bytes32_result(r) == component_outcome(salt@, bytes_result(answer)),
{
    match answer {
        Ok(response) => {
            if response.len() == 0 {
                Err(VaultError::HardwareError)
            } else {
                Ok(key_component_from_response(salt, response.as_slice()))
            }
        },
        Err(_) => Err(VaultError::HardwareError),
    }
}

/// Asks the token for its response to the challenge of `salt` and derives a
/// key component from it. A failed exchange or an empty response is a
/// hardware error.
pub fn derive_key_component<H: HardwareToken>(token: &mut H, salt: &[u8]) -> (r: Result<
    [u8; 32],
    VaultError,
>)
    ensures
        r is Ok ==> exists|resp: Seq<u8>|
            resp.len() > 0 && r->Ok_0@ == #[trigger] hardware_factor(salt@, resp),
        r is Err ==> r->Err_0 == VaultError::HardwareError,
{
    let challenge = hardware_challenge(salt);
    let answer = token.respond(&challenge);
    let r = key_component_from_answer(salt, answer);
    proof {
        if r is Ok {
            let resp = bytes_result(answer)->Ok_0;
            assert(resp.len() > 0 && r->Ok_0@ == hardware_factor(salt@, resp));
        }
    }
    r
}

/// Combines the password-derived key with the hardware-derived key through
/// HKDF; the 64-byte intermediate buffer is zeroed afterwards.
pub fn combine_keys(password_key: &[u8; 32], yubikey_key: &[u8; 32]) -> (r: [u8; 32])
    ensures
        r@ == combined_key(password_key@, yubikey_key@),
{
    let mut combined = [0u8; 64];
    let mut i: usize = 0;
    while i < 32
        invariant
            forall|j: int| 0 <= j < i ==> combined@[j] == password_key@[j],
            forall|j: int| 0 <= j < i ==> combined@[j + 32] == yubikey_key@[j],
        decreases 32 - i,
    {
        combined[i] = password_key[i];
        combined[i + 32] = yubikey_key[i];
        i = i + 1;
    }
    assert(combined@ =~= password_key@ + yubikey_key@);
    proof {
        reveal_strlit("aliaser-combined-key-v1");
    }
    let out = match hkdf_sha256_32(None, combined.as_slice(), COMBINED_INFO.as_bytes()) {
        Ok(k) => k,
        Err(_) => [0u8; 32],
    };
    zeroize_bytes(&mut combined);
    out
}

/// The vault key from an already derived password factor and, where the
/// hardware factor is used, the token's answer to the challenge of `salt`.
pub fn vault_key_from_factors(
    password_key: &[u8; 32],
    salt: &[u8],
    answer: Option<Result<Vec<u8>, VaultError>>,
) -> (r: Result<[u8; 32], VaultError>)
    ensures
        bytes32_result(r) == factors_outcome(password_key@, salt@, opt_answer(answer)),
{
    match answer {
        None => Ok(*password_key),
        Some(a) => {
            let hw = key_component_from_answer(salt, a)?;
            Ok(combine_keys(password_key, &hw))
        },
    }
}

/// Derives the vault key: the password factor always, combined with the
/// token's factor where `use_yubikey` holds. The token is left alone where
/// it is not used.
pub fn derive_key_with_yubikey<H: HardwareToken>(
    password: &str,
    salt: &[u8],
    use_yubikey: bool,
    token: &mut H,
) -> (r: Result<[u8; 32], VaultError>)
    ensures
        !use_yubikey ==> *final(token) == *old(token),
        password_factor(password.spec_bytes(), salt@) is None ==> r == Err::<[u8; 32], VaultError>(
            VaultError::DerivationError,
        ),
        !use_yubikey ==> match r {
            Ok(k) => vault_key(password.spec_bytes(), salt@, None) == Some(k@),
            Err(e) => vault_key(password.spec_bytes(), salt@, None) is None && e
                == VaultError::DerivationError,
        },
        use_yubikey && r is Ok ==> exists|resp: Seq<u8>|
            #[trigger] vault_key(password.spec_bytes(), salt@, Some(resp)) == Some(r->Ok_0@),
        use_yubikey && password_factor(password.spec_bytes(), salt@) is Some && r is Err
            ==> r->Err_0 == VaultError::HardwareError,
{
    let password_key = derive_key(password, salt)?;
    let answer = if use_yubikey {
        Some(token.respond(&hardware_challenge(salt)))
    } else {
        None
    };
    let r = vault_key_from_factors(&password_key, salt, answer);
    proof {
        if use_yubikey && r is Ok {
            let resp = bytes_result(answer->0)->Ok_0;
            assert(vault_key(password.spec_bytes(), salt@, Some(resp)) == Some(r->Ok_0@));
        }
    }
    r
}

/// The vault key for a password and a salt, given whether the hardware factor
/// is on, whether a token was found, and the token's answer to the challenge
/// of `salt` (not looked at where the hardware factor is off).
pub fn vault_key_from_answer(
    password: &str,
    salt: &[u8],
    hardware: bool,
    present: bool,
    answer: Result<Vec<u8>, VaultError>,
) -> (r: Result<[u8; 32], VaultError>)
    ensures
        bytes32_result(r) == vault_key_outcome(
            password.spec_bytes(),
            salt@,
            hardware,
            present,
            bytes_result(answer),
        ),
{
    if hardware && !present {
        return Err(VaultError::HardwareUnavailable);
    }
    let password_key = derive_key(password, salt)?;
    let answer = if hardware {
        Some(answer)
    } else {
        None
    };
    vault_key_from_factors(&password_key, salt, answer)
}

} // verus!
