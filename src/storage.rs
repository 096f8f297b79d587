//! The vault's lifecycle: uninitialized, locked, unlocked; and the
//! operations each state allows. The vault holds what is persisted (the
//! configuration and the sealed store) as values; reading and writing the
//! files is left to the caller.
use vstd::prelude::*;
use vstd::string::StringSliceAdditionalSpecFns;

use crate::crypto::{
    argon2id_key,
    decrypt,
    encrypt,
    gcm_seal,
    generate_salt,
    hash_password_with_salt,
    random_array,
    seal_with_nonce,
    HASH_SALT_SIZE,
    NONCE_SIZE,
    is_sealing_of,
    open_outcome,
    bytes_result,
    phc_check,
    password_factor,
    verify_password,
    MAX_ARGON2_LEN,
    MAX_PLAINTEXT,
    SALT_SIZE,
};
use crate::error::VaultError;
use crate::identity::{Identity, VaultData, sorted_strings};
use crate::yubikey::{
    hardware_challenge,
    vault_key,
    vault_key_from_answer,
    vault_key_outcome,
    zeroize_bytes,
    HardwareToken,
};

verus! {

/// Format version written into every new configuration.
pub const FORMAT_VERSION: &'static str = "0.1.0";

/// The persisted configuration of a vault.
#[derive(Debug, Clone)]
pub struct VaultConfig {
    /// PHC-format verification hash of the master password, with its own salt.
    pub master_password_hash: String,
    /// Salt of the key derivation.
    pub salt: Vec<u8>,
    /// Format version.
    pub version: String,
    /// Whether the vault key also needs the hardware factor.
    pub yubikey_enabled: bool,
}

/// `key` is what the derivation gives for `password` and `salt`, with some
/// non-empty token response where the hardware factor is on.
pub open spec fn key_derived(password: Seq<u8>, salt: Seq<u8>, hardware: bool, key: Seq<u8>) -> bool {
    if hardware {
        exists|resp: Seq<u8>| #[trigger] vault_key(password, salt, Some(resp)) == Some(key)
    } else {
        vault_key(password, salt, None) == Some(key)
    }
}

/// The bytes of a salt, as a vector.
fn salt_vec(salt: &[u8; SALT_SIZE]) -> (r: Vec<u8>)
    ensures
        r@ == salt@,
{
    let mut v: Vec<u8> = Vec::new();
    let mut i: usize = 0;
    while i < SALT_SIZE
        invariant
            i <= SALT_SIZE,
            v@ == salt@.subrange(0, i as int),
        decreases SALT_SIZE - i,
    {
        v.push(salt[i]);
        i = i + 1;
    }
    assert(salt@.subrange(0, SALT_SIZE as int) =~= salt@);
    v
}

/// A vault: its persisted configuration and sealed store, where present,
/// and the vault key while it is unlocked.
pub struct Vault {
    config: Option<VaultConfig>,
    store: Option<Vec<u8>>,
    key: Option<[u8; 32]>,
}

/// What `unlock` does: only a locked, initialized vault can be unlocked; the
/// verification hash decides first (a hash that does not parse is a format
/// error, a mismatch an authentication error); the key is then derived; the
/// persisted parts never change, and on failure neither does the key.
pub open spec fn unlock_outcome(
    before: Vault,
    after: Vault,
    password: Seq<u8>,
    r: Result<(), VaultError>,
) -> bool {
    &&& after.same_persisted(&before)
    &&& (!before.initialized() || before.unlocked() ==> r == Err::<(), VaultError>(
        VaultError::InvalidState,
    ))
    &&& (r is Err ==> after.spec_key() == before.spec_key())
    &&& (before.initialized() && !before.unlocked() ==> {
        let c = before.spec_config()->0;
        let check = phc_check(c.master_password_hash@, password);
        &&& (check is None ==> r == Err::<(), VaultError>(VaultError::FormatError))
        &&& (check == Some(false) ==> r == Err::<(), VaultError>(VaultError::AuthenticationError))
        &&& (r is Ok ==> check == Some(true) && after.unlocked() && key_derived(
            password,
            c.salt@,
            c.yubikey_enabled,
            after.spec_key()->0,
        ))
        &&& (check == Some(true) && !c.yubikey_enabled && password_factor(password, c.salt@) is Some
            ==> r is Ok)
        &&& (r == Err::<(), VaultError>(VaultError::HardwareUnavailable) ==> c.yubikey_enabled)
    })
}

/// What `read_store` gives: refused while locked, else the store opened with
/// the held key.
pub open spec fn read_outcome(v: Vault, r: Result<Seq<u8>, VaultError>) -> bool {
    if !v.unlocked() {
        r == Err::<Seq<u8>, VaultError>(VaultError::InvalidState)
    } else {
        open_outcome(v.spec_store()->0, v.spec_key()->0, r)
    }
}

/// What `change_master_password` does: only from locked and initialized; a
/// mismatched old password is an authentication error; on failure nothing
/// changes; on success the vault is unlocked under a key derived from the new
/// password and a new salt, the hardware setting is kept, and the store holds
/// the same contents, resealed.
pub open spec fn rotation_outcome(
    before: Vault,
    after: Vault,
    old_password: Seq<u8>,
    new_password: Seq<u8>,
    r: Result<(), VaultError>,
) -> bool {
    &&& (!before.initialized() || before.unlocked() ==> r == Err::<(), VaultError>(
        VaultError::InvalidState,
    ))
    &&& (r is Err ==> after.same_persisted(&before) && after.spec_key() == before.spec_key())
    &&& (before.initialized() && !before.unlocked() && phc_check(
        before.spec_config()->0.master_password_hash@,
        old_password,
    ) == Some(false) ==> r == Err::<(), VaultError>(VaultError::AuthenticationError))
    &&& (r is Ok ==> after.initialized() && after.unlocked())
    &&& ({
        let c0 = before.spec_config()->0;
        before.initialized() && !before.unlocked() && !c0.yubikey_enabled && phc_check(
            c0.master_password_hash@,
            old_password,
        ) == Some(true) && password_factor(old_password, c0.salt@) is Some && new_password.len()
            <= MAX_ARGON2_LEN && (exists|m: Seq<u8>|
            m.len() <= MAX_PLAINTEXT && #[trigger] is_sealing_of(
                before.spec_store()->0,
                argon2id_key(old_password, c0.salt@),
                m,
            ))
    } ==> r is Ok || r == Err::<(), VaultError>(VaultError::RandomnessUnavailable))
    &&& (r is Ok ==> {
        let c0 = before.spec_config()->0;
        let c = after.spec_config()->0;
        let k = after.spec_key()->0;
        &&& phc_check(c0.master_password_hash@, old_password) == Some(true)
        &&& phc_check(c.master_password_hash@, new_password) == Some(true)
        &&& c.salt@.len() == SALT_SIZE
        &&& c.version@ == FORMAT_VERSION@
        &&& c.yubikey_enabled == c0.yubikey_enabled
        &&& key_derived(new_password, c.salt@, c.yubikey_enabled, k)
        &&& exists|old_key: Seq<u8>, m: Seq<u8>|
            #[trigger] key_derived(old_password, c0.salt@, c0.yubikey_enabled, old_key)
                && open_outcome(before.spec_store()->0, old_key, Ok(m)) && m.len() <= MAX_PLAINTEXT
                && #[trigger] is_sealing_of(after.spec_store()->0, k, m)
    })
}

/// A vault just keyed for `password`: initialized and unlocked, its hash
/// accepting the password, a fresh salt, the current format version, the
/// given hardware setting, a key derived from password and salt, and a store
/// that seals `contents` under that key.
pub open spec fn keyed_with(after: Vault, password: Seq<u8>, hardware: bool, contents: Seq<u8>) -> bool {
    &&& after.initialized()
    &&& after.unlocked()
    &&& {
        let c = after.spec_config()->0;
        let k = after.spec_key()->0;
        &&& phc_check(c.master_password_hash@, password) == Some(true)
        &&& c.salt@.len() == SALT_SIZE
        &&& c.version@ == FORMAT_VERSION@
        &&& c.yubikey_enabled == hardware
        &&& key_derived(password, c.salt@, hardware, k)
        &&& is_sealing_of(after.spec_store()->0, k, contents)
    }
}

/// What re-keying a locked vault whose old password checked out gives, for
/// given token state and answers (to the challenges of the old and the new
/// salt), new salt and nonce: the old key, then the store opened with it,
/// then the new key decide; on success the same contents are resealed under
/// the new key with that nonce.
pub open spec fn rotation_exact(
    before: Vault,
    after: Vault,
    old_password: Seq<u8>,
    new_password: Seq<u8>,
    present: bool,
    old_answer: Result<Seq<u8>, VaultError>,
    new_answer: Result<Seq<u8>, VaultError>,
    new_salt: Seq<u8>,
    nonce: Seq<u8>,
    r: Result<(), VaultError>,
) -> bool {
    let c0 = before.spec_config()->0;
    let ko = vault_key_outcome(old_password, c0.salt@, c0.yubikey_enabled, present, old_answer);
    let kn = vault_key_outcome(new_password, new_salt, c0.yubikey_enabled, present, new_answer);
    &&& (r is Err ==> after.same_persisted(&before) && after.spec_key() == before.spec_key())
    &&& (ko is Err ==> r == Err::<(), VaultError>(ko->Err_0))
    &&& (ko is Ok && (forall|m: Seq<u8>|
        m.len() <= MAX_PLAINTEXT ==> !#[trigger] is_sealing_of(before.spec_store()->0, ko->Ok_0, m))
        ==> r is Err)
    &&& (ko is Ok && (exists|m: Seq<u8>|
        m.len() <= MAX_PLAINTEXT && #[trigger] is_sealing_of(before.spec_store()->0, ko->Ok_0, m))
        ==> match kn {
        Ok(_) => r is Ok,
        Err(e) => r == Err::<(), VaultError>(e),
    })
    &&& (r is Ok ==> {
        let c = after.spec_config()->0;
        &&& ko is Ok
        &&& kn is Ok
        &&& after.initialized()
        &&& after.unlocked()
        &&& phc_check(c.master_password_hash@, new_password) == Some(true)
        &&& c.salt@ == new_salt
        &&& c.version@ == FORMAT_VERSION@
        &&& c.yubikey_enabled == c0.yubikey_enabled
        &&& after.spec_key() == Some(kn->Ok_0)
        &&& exists|m: Seq<u8>|
            #[trigger] open_outcome(before.spec_store()->0, ko->Ok_0, Ok(m)) && m.len()
                <= MAX_PLAINTEXT && after.spec_store() == Some(
                nonce + gcm_seal(kn->Ok_0, nonce, m),
            )
    })
}

/// A key that the outcome function gives is derived from password and salt.
proof fn lemma_outcome_key_derived(
    password: Seq<u8>,
    salt: Seq<u8>,
    hardware: bool,
    present: bool,
    answer: Result<Seq<u8>, VaultError>,
)
    requires
        vault_key_outcome(password, salt, hardware, present, answer) is Ok,
    ensures
        key_derived(
            password,
            salt,
            hardware,
            vault_key_outcome(password, salt, hardware, present, answer)->Ok_0,
        ),
{
    if hardware {
        let resp = answer->Ok_0;
        assert(vault_key(password, salt, Some(resp)) == Some(
            vault_key_outcome(password, salt, hardware, present, answer)->Ok_0,
        ));
    }
}

/// A wrong password leaves a locked vault locked: `unlock` fails with an
/// authentication error, nothing changes, and reading the store is refused.
pub proof fn lemma_wrong_password_keeps_vault_locked(
    before: Vault,
    after: Vault,
    password: Seq<u8>,
    r: Result<(), VaultError>,
    read: Result<Seq<u8>, VaultError>,
)
    requires
        before.initialized(),
        !before.unlocked(),
        phc_check(before.spec_config()->0.master_password_hash@, password) == Some(false),
        unlock_outcome(before, after, password, r),
        read_outcome(after, read),
    ensures
        r == Err::<(), VaultError>(VaultError::AuthenticationError),
        !after.unlocked(),
        after.same_persisted(&before),
        read == Err::<Seq<u8>, VaultError>(VaultError::InvalidState),
{
}

/// After a successful change of master password on a vault without the
/// hardware factor, a fresh vault over what was persisted unlocks with the new
/// password, and its store reads back what the old store held under the old
/// key.
pub proof fn lemma_rotation_keeps_store(
    before: Vault,
    after: Vault,
    old_password: Seq<u8>,
    new_password: Seq<u8>,
    r: Result<(), VaultError>,
    fresh: Vault,
    reopened: Vault,
    r_unlock: Result<(), VaultError>,
    read: Result<Seq<u8>, VaultError>,
)
    requires
        rotation_outcome(before, after, old_password, new_password, r),
        r is Ok,
        !before.spec_config()->0.yubikey_enabled,
        fresh.same_persisted(&after),
        !fresh.unlocked(),
        unlock_outcome(fresh, reopened, new_password, r_unlock),
        read_outcome(reopened, read),
    ensures
        r_unlock is Ok,
        read is Ok,
        exists|old_key: Seq<u8>|
            #[trigger] key_derived(
                old_password,
                before.spec_config()->0.salt@,
                false,
                old_key,
            ) && open_outcome(before.spec_store()->0, old_key, read),
{
    let c0 = before.spec_config()->0;
    let c = after.spec_config()->0;
    let k = after.spec_key()->0;
    let (old_key, m) = choose|old_key: Seq<u8>, m: Seq<u8>|
        #[trigger] key_derived(old_password, c0.salt@, c0.yubikey_enabled, old_key)
            && open_outcome(before.spec_store()->0, old_key, Ok(m)) && m.len() <= MAX_PLAINTEXT
            && #[trigger] is_sealing_of(after.spec_store()->0, k, m);
    assert(reopened.spec_key()->0 == k);
    assert(is_sealing_of(reopened.spec_store()->0, reopened.spec_key()->0, m));
    assert(read == Ok::<Seq<u8>, VaultError>(m));
    assert(key_derived(old_password, c0.salt@, false, old_key));
}

impl Vault {
    /// The persisted configuration.
    pub closed spec fn spec_config(&self) -> Option<VaultConfig> {
        self.config
    }

    /// The persisted sealed store.
    pub closed spec fn spec_store(&self) -> Option<Seq<u8>> {
        match self.store {
            Some(s) => Some(s@),
            None => None,
        }
    }

    /// The vault key held in memory.
    pub closed spec fn spec_key(&self) -> Option<Seq<u8>> {
        match self.key {
            Some(k) => Some(k@),
            None => None,
        }
    }

    /// Configuration and store are both present.
    pub open spec fn initialized(&self) -> bool {
        self.spec_config() is Some && self.spec_store() is Some
    }

    /// A key is held.
    pub open spec fn unlocked(&self) -> bool {
        self.spec_key() is Some
    }

    /// Only an initialized vault is ever unlocked.
    pub open spec fn well_formed(&self) -> bool {
        self.unlocked() ==> self.initialized()
    }

    /// The persisted parts of two vaults agree.
    pub open spec fn same_persisted(&self, other: &Vault) -> bool {
        self.spec_config() == other.spec_config() && self.spec_store() == other.spec_store()
    }

    /// A locked vault over what was persisted: a configuration and a sealed
    /// store, each where present.
    pub fn new(config: Option<VaultConfig>, store: Option<Vec<u8>>) -> (r: Vault)
        ensures
            r.spec_config() == config,
            r.spec_store() == (match store {
                Some(s) => Some(s@),
                None => None::<Seq<u8>>,
            }),
            !r.unlocked(),
            r.well_formed(),
    {
        Vault { config, store, key: None }
    }

    /// Checks if the vault is initialized: configuration and store both present.
    pub fn is_initialized(&self) -> (r: bool)
        ensures
            r == self.initialized(),
    {
        self.config.is_some() && self.store.is_some()
    }

    /// Whether a key is held.
    pub fn is_unlocked(&self) -> (r: bool)
        ensures
            r == self.unlocked(),
    {
        self.key.is_some()
    }

    /// The configuration to persist.
    pub fn config(&self) -> (r: Option<&VaultConfig>)
        ensures
            r == (match self.spec_config() {
                Some(c) => Some(&c),
                None => None::<&VaultConfig>,
            }),
    {
        match &self.config {
            Some(c) => Some(c),
            None => None,
        }
    }

    /// The sealed store to persist.
    pub fn store(&self) -> (r: Option<&Vec<u8>>)
        ensures
            r is Some <==> self.spec_store() is Some,
            r is Some ==> self.spec_store() == Some(r->0@),
    {
        match &self.store {
            Some(s) => Some(s),
            None => None,
        }
    }

    /// Checks `password` against the verification hash: a hash that does not
    /// parse is a format error, a mismatch an authentication error.
    fn check_password(&self, password: &str) -> (r: Result<(), VaultError>)
        requires
            self.initialized(),
        ensures
            ({
                let check = phc_check(self.spec_config()->0.master_password_hash@, password.spec_bytes());
                &&& (check is None ==> r == Err::<(), VaultError>(VaultError::FormatError))
                &&& (check == Some(false) ==> r == Err::<(), VaultError>(
                    VaultError::AuthenticationError,
                ))
                &&& (check == Some(true) <==> r is Ok)
            }),
            r is Err ==> r->Err_0 == VaultError::FormatError || r->Err_0
                == VaultError::AuthenticationError,
    {
        let config = match &self.config {
            Some(c) => c,
            None => {
                return Err(VaultError::InvalidState);
            },
        };
        if verify_password(password, config.master_password_hash.as_str())? {
            Ok(())
        } else {
            Err(VaultError::AuthenticationError)
        }
    }

    /// Derives the key after the password has been checked, and holds it.
    fn finish_unlock(&mut self, password: &str, token_present: bool, answer: Result<
        Vec<u8>,
        VaultError,
    >) -> (r: Result<(), VaultError>)
        requires
            old(self).initialized(),
            !old(self).unlocked(),
        ensures
            final(self).same_persisted(old(self)),
            ({
                let c = old(self).spec_config()->0;
                match vault_key_outcome(
                    password.spec_bytes(),
                    c.salt@,
                    c.yubikey_enabled,
                    token_present,
                    bytes_result(answer),
                ) {
                    Ok(k) => r is Ok && final(self).spec_key() == Some(k),
                    Err(e) => r == Err::<(), VaultError>(e) && final(self).spec_key() == old(
                        self,
                    ).spec_key(),
                }
            }),
    {
        let key = match &self.config {
            Some(c) => vault_key_from_answer(
                password,
                c.salt.as_slice(),
                c.yubikey_enabled,
                token_present,
                answer,
            ),
            None => Err(VaultError::InvalidState),
        };
        let key = key?;
        self.key = Some(key);
        Ok(())
    }

    /// Initializes a new vault from the given outside values: whether a token
    /// was found and its answer to the challenge of `salt` (looked at only with
    /// the hardware factor on), the key-derivation salt, the verification
    /// hash's own salt, and the nonce that seals `initial_store`. Valid only
    /// while nothing is persisted; on success the vault is unlocked. On any
    /// failure nothing changes.
    pub fn initialize_from(
        &mut self,
        master_password: &str,
        use_yubikey: bool,
        token_present: bool,
        answer: Result<Vec<u8>, VaultError>,
        initial_store: &[u8],
        salt: &[u8; SALT_SIZE],
        hash_salt: &[u8; HASH_SALT_SIZE],
        nonce: &[u8; NONCE_SIZE],
    ) -> (r: Result<(), VaultError>)
        requires
            old(self).well_formed(),
        ensures
            final(self).well_formed(),
            old(self).initialized() ==> r == Err::<(), VaultError>(VaultError::InvalidState),
            r is Err ==> final(self).same_persisted(old(self)) && final(self).spec_key() == old(
                self).spec_key(),
            !old(self).initialized() ==> match vault_key_outcome(
                master_password.spec_bytes(),
                salt@,
                use_yubikey,
                token_present,
                bytes_result(answer),
            ) {
                Err(e) => r == Err::<(), VaultError>(e),
                Ok(k) => if initial_store@.len() <= MAX_PLAINTEXT {
                    &&& r is Ok
                    &&& keyed_with(*final(self), master_password.spec_bytes(), use_yubikey, initial_store@)
                    &&& final(self).spec_config()->0.salt@ == salt@
                    &&& final(self).spec_key() == Some(k)
                    &&& final(self).spec_store() == Some(nonce@ + gcm_seal(k, nonce@, initial_store@))
                } else {
                    r == Err::<(), VaultError>(VaultError::FormatError)
                },
            },
    {
        if self.is_initialized() {
            return Err(VaultError::InvalidState);
        }
        let mut key = vault_key_from_answer(
            master_password,
            salt.as_slice(),
            use_yubikey,
            token_present,
            answer,
        )?;
        let password_hash = match hash_password_with_salt(master_password, hash_salt) {
            Ok(h) => h,
            Err(e) => {
                zeroize_bytes(&mut key);
                return Err(e);
            },
        };
        let sealed = match seal_with_nonce(initial_store, &key, nonce) {
            Ok(sealed) => sealed,
            Err(e) => {
                zeroize_bytes(&mut key);
                return Err(e);
            },
        };
        proof {
            lemma_outcome_key_derived(
                master_password.spec_bytes(),
                salt@,
                use_yubikey,
                token_present,
                bytes_result(answer),
            );
            assert(sealed@.subrange(0, NONCE_SIZE as int) =~= nonce@);
            assert(sealed@.subrange(NONCE_SIZE as int, sealed@.len() as int) =~= gcm_seal(
                key@,
                nonce@,
                initial_store@,
            ));
        }
        let config = VaultConfig {
            master_password_hash: password_hash,
            salt: salt_vec(salt),
            version: FORMAT_VERSION.to_owned(),
            yubikey_enabled: use_yubikey,
        };
        self.config = Some(config);
        self.store = Some(sealed);
        self.key = Some(key);
        Ok(())
    }

    /// Initializes a new vault with a master password, optionally with the
    /// hardware factor, and seals `initial_store` under the new key: asks the
    /// token, draws the salts and the nonce, and hands them to
    /// `initialize_from`. Valid only while nothing is persisted; on success the
    /// vault is unlocked. On any failure nothing changes.
    pub fn initialize<H: HardwareToken>(
        &mut self,
        master_password: &str,
        use_yubikey: bool,
        token: &mut H,
        initial_store: &[u8],
    ) -> (r: Result<(), VaultError>)
        requires
            old(self).well_formed(),
        ensures
            final(self).well_formed(),
            !use_yubikey ==> *final(token) == *old(token),
            old(self).initialized() ==> r == Err::<(), VaultError>(VaultError::InvalidState),
            r is Err ==> final(self).same_persisted(old(self)) && final(self).spec_key() == old(
                self).spec_key(),
            r == Err::<(), VaultError>(VaultError::HardwareUnavailable) ==> use_yubikey,
            r == Err::<(), VaultError>(VaultError::HardwareError) ==> use_yubikey,
            !old(self).initialized() && !use_yubikey && master_password.spec_bytes().len()
                <= MAX_ARGON2_LEN && initial_store@.len() <= MAX_PLAINTEXT ==> r is Ok || r
                == Err::<(), VaultError>(VaultError::RandomnessUnavailable),
            r is Ok ==> keyed_with(*final(self), master_password.spec_bytes(), use_yubikey, initial_store@),
    {
        if self.is_initialized() {
            return Err(VaultError::InvalidState);
        }
        let present = if use_yubikey {
            token.is_present()
        } else {
            true
        };
        if !present {
            return Err(VaultError::HardwareUnavailable);
        }
        let salt = generate_salt()?;
        let hash_salt = random_array::<HASH_SALT_SIZE>()?;
        let nonce = random_array::<NONCE_SIZE>()?;
        let answer = if use_yubikey {
            token.respond(&hardware_challenge(salt.as_slice()))
        } else {
            Err(VaultError::HardwareUnavailable)
        };
        self.initialize_from(
            master_password,
            use_yubikey,
            present,
            answer,
            initial_store,
            &salt,
            &hash_salt,
            &nonce,
        )
    }

    /// Unlocks the vault from the given outside values: whether a token was
    /// found and its answer to the challenge of the stored salt (looked at only
    /// with the hardware factor on). Valid only while locked. A wrong password
    /// is caught by the verification hash before any key is derived. On any
    /// failure nothing changes.
    pub fn unlock_with(&mut self, master_password: &str, token_present: bool, answer: Result<
        Vec<u8>,
        VaultError,
    >) -> (r: Result<(), VaultError>)
        requires
            old(self).well_formed(),
        ensures
            final(self).well_formed(),
            unlock_outcome(*old(self), *final(self), master_password.spec_bytes(), r),
            old(self).initialized() && !old(self).unlocked() && phc_check(
                old(self).spec_config()->0.master_password_hash@,
                master_password.spec_bytes(),
            ) == Some(true) ==> match vault_key_outcome(
                master_password.spec_bytes(),
                old(self).spec_config()->0.salt@,
                old(self).spec_config()->0.yubikey_enabled,
                token_present,
                bytes_result(answer),
            ) {
                Ok(k) => r is Ok && final(self).spec_key() == Some(k),
                Err(e) => r == Err::<(), VaultError>(e),
            },
    {
        if !self.is_initialized() || self.is_unlocked() {
            return Err(VaultError::InvalidState);
        }
        let checked = self.check_password(master_password);
        if checked.is_err() {
            return checked;
        }
        let r = self.finish_unlock(master_password, token_present, answer);
        proof {
            let c = old(self).spec_config()->0;
            if r is Ok {
                lemma_outcome_key_derived(
                    master_password.spec_bytes(),
                    c.salt@,
                    c.yubikey_enabled,
                    token_present,
                    bytes_result(answer),
                );
            }
        }
        r
    }

    /// Unlocks the vault with the master password: checks it against the
    /// verification hash, then, with the hardware factor on, looks for the
    /// token and asks it. Valid only while locked. On any failure nothing
    /// changes.
    pub fn unlock<H: HardwareToken>(&mut self, master_password: &str, token: &mut H) -> (r: Result<
        (),
        VaultError,
    >)
        requires
            old(self).well_formed(),
        ensures
            final(self).well_formed(),
            unlock_outcome(*old(self), *final(self), master_password.spec_bytes(), r),
            old(self).initialized() && !old(self).spec_config()->0.yubikey_enabled ==> *final(
                token) == *old(token),
    {
        if !self.is_initialized() || self.is_unlocked() {
            return Err(VaultError::InvalidState);
        }
        let checked = self.check_password(master_password);
        if checked.is_err() {
            return checked;
        }
        let (hardware, challenge) = match &self.config {
            Some(c) => (c.yubikey_enabled, hardware_challenge(c.salt.as_slice())),
            None => {
                return Err(VaultError::InvalidState);
            },
        };
        let present = if hardware {
            token.is_present()
        } else {
            true
        };
        let answer = if hardware && present {
            token.respond(&challenge)
        } else {
            Err(VaultError::HardwareUnavailable)
        };
        let r = self.finish_unlock(master_password, present, answer);
        proof {
            let c = old(self).spec_config()->0;
            if r is Ok {
                lemma_outcome_key_derived(
                    master_password.spec_bytes(),
                    c.salt@,
                    c.yubikey_enabled,
                    present,
                    bytes_result(answer),
                );
            }
        }
        r
    }

    /// Opens a blob with the held key. Valid only while unlocked.
    pub fn open_blob(&self, blob: &[u8]) -> (r: Result<Vec<u8>, VaultError>)
        ensures
            !self.unlocked() ==> r == Err::<Vec<u8>, VaultError>(VaultError::InvalidState),
            self.unlocked() ==> open_outcome(blob@, self.spec_key()->0, bytes_result(r)),
    {
        match &self.key {
            Some(key) => decrypt(blob, key),
            None => Err(VaultError::InvalidState),
        }
    }

    /// Opens the sealed store with the held key. Valid only while unlocked.
    pub fn read_store(&self) -> (r: Result<Vec<u8>, VaultError>)
        requires
            self.well_formed(),
        ensures
            read_outcome(*self, bytes_result(r)),
    {
        match (&self.key, &self.store) {
            (Some(key), Some(store)) => decrypt(store.as_slice(), key),
            _ => Err(VaultError::InvalidState),
        }
    }

    /// Seals `data` with the held key under the given nonce and replaces the
    /// store with it. Valid only while unlocked. On failure nothing changes.
    pub fn write_store_with_nonce(&mut self, data: &[u8], nonce: &[u8; NONCE_SIZE]) -> (r: Result<
        (),
        VaultError,
    >)
        requires
            old(self).well_formed(),
        ensures
            final(self).well_formed(),
            final(self).spec_config() == old(self).spec_config(),
            final(self).spec_key() == old(self).spec_key(),
            !old(self).unlocked() ==> r == Err::<(), VaultError>(VaultError::InvalidState),
            old(self).unlocked() ==> (r is Ok <==> data@.len() <= MAX_PLAINTEXT),
            r is Err ==> final(self).spec_store() == old(self).spec_store(),
            r is Err && old(self).unlocked() ==> r == Err::<(), VaultError>(
                VaultError::FormatError,
            ),
            r is Ok ==> final(self).spec_store() == Some(
                nonce@ + gcm_seal(final(self).spec_key()->0, nonce@, data@),
            ) && is_sealing_of(final(self).spec_store()->0, final(self).spec_key()->0, data@),
    {
        match &self.key {
            Some(key) => match seal_with_nonce(data, key, nonce) {
                Ok(sealed) => {
                    assert(sealed@.subrange(0, NONCE_SIZE as int) =~= nonce@);
                    assert(sealed@.subrange(NONCE_SIZE as int, sealed@.len() as int) =~= gcm_seal(
                        key@,
                        nonce@,
                        data@,
                    ));
                    self.store = Some(sealed);
                    Ok(())
                },
                Err(e) => Err(e),
            },
            None => Err(VaultError::InvalidState),
        }
    }

    /// Seals `data` with the held key and a fresh random nonce, and replaces
    /// the store with it. Valid only while unlocked. On failure nothing
    /// changes.
    pub fn write_store(&mut self, data: &[u8]) -> (r: Result<(), VaultError>)
        requires
            old(self).well_formed(),
        ensures
            final(self).well_formed(),
            final(self).spec_config() == old(self).spec_config(),
            final(self).spec_key() == old(self).spec_key(),
            !old(self).unlocked() ==> r == Err::<(), VaultError>(VaultError::InvalidState),
            old(self).unlocked() && data@.len() <= MAX_PLAINTEXT ==> r is Ok || r == Err::<
                (),
                VaultError,
            >(VaultError::RandomnessUnavailable),
            data@.len() > MAX_PLAINTEXT ==> r is Err,
            r is Err ==> final(self).spec_store() == old(self).spec_store(),
            r is Err && old(self).unlocked() ==> r == Err::<(), VaultError>(
                VaultError::FormatError,
            ) || r == Err::<(), VaultError>(VaultError::RandomnessUnavailable),
            r is Ok ==> final(self).spec_store() is Some && is_sealing_of(
                final(self).spec_store()->0,
                final(self).spec_key()->0,
                data@,
            ),
    {
        if !self.is_unlocked() {
            return Err(VaultError::InvalidState);
        }
        let nonce = random_array::<NONCE_SIZE>()?;
        self.write_store_with_nonce(data, &nonce)
    }

    /// Re-keys the vault after the old password has been checked.
    fn finish_rotation(
        &mut self,
        old_password: &str,
        new_password: &str,
        token_present: bool,
        old_answer: Result<Vec<u8>, VaultError>,
        new_answer: Result<Vec<u8>, VaultError>,
        new_salt: &[u8; SALT_SIZE],
        hash_salt: &[u8; HASH_SALT_SIZE],
        nonce: &[u8; NONCE_SIZE],
    ) -> (r: Result<(), VaultError>)
        requires
            old(self).well_formed(),
            old(self).initialized(),
            !old(self).unlocked(),
        ensures
            final(self).well_formed(),
            rotation_exact(
                *old(self),
                *final(self),
                old_password.spec_bytes(),
                new_password.spec_bytes(),
                token_present,
                bytes_result(old_answer),
                bytes_result(new_answer),
                new_salt@,
                nonce@,
                r,
            ),
    {
        let (hardware, old_key_r) = match &self.config {
            Some(c) => (
                c.yubikey_enabled,
                vault_key_from_answer(
                    old_password,
                    c.salt.as_slice(),
                    c.yubikey_enabled,
                    token_present,
                    old_answer,
                ),
            ),
            None => {
                return Err(VaultError::InvalidState);
            },
        };
        let mut old_key = match old_key_r {
            Ok(k) => k,
            Err(e) => {
                return Err(e);
            },
        };
        let opened = match &self.store {
            Some(store) => decrypt(store.as_slice(), &old_key),
            None => Err(VaultError::InvalidState),
        };
        let ghost old_key_view = old_key@;
        zeroize_bytes(&mut old_key);
        let data = match opened {
            Ok(d) => d,
            Err(e) => {
                proof {
                    assert forall|m: Seq<u8>| m.len() <= MAX_PLAINTEXT implies !#[trigger] is_sealing_of(
                        old(self).spec_store()->0,
                        old_key_view,
                        m,
                    ) by {}
                }
                return Err(e);
            },
        };
        let mut new_key = match vault_key_from_answer(
            new_password,
            new_salt.as_slice(),
            hardware,
            token_present,
            new_answer,
        ) {
            Ok(k) => k,
            Err(e) => {
                return Err(e);
            },
        };
        let new_hash = match hash_password_with_salt(new_password, hash_salt) {
            Ok(h) => h,
            Err(e) => {
                zeroize_bytes(&mut new_key);
                return Err(e);
            },
        };
        let sealed = match seal_with_nonce(data.as_slice(), &new_key, nonce) {
            Ok(sealed) => sealed,
            Err(e) => {
                proof {
                    assert forall|m: Seq<u8>| m.len() <= MAX_PLAINTEXT implies !#[trigger] is_sealing_of(
                        old(self).spec_store()->0,
                        old_key_view,
                        m,
                    ) by {}
                }
                zeroize_bytes(&mut new_key);
                return Err(e);
            },
        };
        proof {
            let c0 = old(self).spec_config()->0;
            lemma_outcome_key_derived(
                new_password.spec_bytes(),
                new_salt@,
                hardware,
                token_present,
                bytes_result(new_answer),
            );
            assert(sealed@.subrange(0, NONCE_SIZE as int) =~= nonce@);
            assert(sealed@.subrange(NONCE_SIZE as int, sealed@.len() as int) =~= gcm_seal(
                new_key@,
                nonce@,
                data@,
            ));
            assert(open_outcome(old(self).spec_store()->0, old_key_view, Ok(data@)));
            assert(is_sealing_of(old(self).spec_store()->0, old_key_view, data@));
        }
        let config = VaultConfig {
            master_password_hash: new_hash,
            salt: salt_vec(new_salt),
            version: FORMAT_VERSION.to_owned(),
            yubikey_enabled: hardware,
        };
        self.config = Some(config);
        self.store = Some(sealed);
        proof {
            let c0 = old(self).spec_config()->0;
            let ko = vault_key_outcome(old_password.spec_bytes(), c0.salt@, c0.yubikey_enabled, token_present, bytes_result(old_answer));
            assert(ko == Ok::<Seq<u8>, VaultError>(old_key_view));
            assert(open_outcome(old(self).spec_store()->0, ko->Ok_0, Ok(data@)));
        }
        self.key = Some(new_key);
        Ok(())
    }

    /// Changes the master password from the given outside values: whether a
    /// token was found, its answers to the challenges of the old and the new
    /// salt (looked at only with the hardware factor on), the new salt, the new
    /// verification hash's own salt, and the nonce of the resealed store.
    /// Checks `old_password` as `unlock` does, opens the store, derives the new
    /// key and reseals the same contents under it; the hardware-factor setting
    /// is kept. Valid only while initialized and locked; on any failure
    /// nothing changes.
    pub fn change_master_password_with(
        &mut self,
        old_password: &str,
        new_password: &str,
        token_present: bool,
        old_answer: Result<Vec<u8>, VaultError>,
        new_answer: Result<Vec<u8>, VaultError>,
        new_salt: &[u8; SALT_SIZE],
        hash_salt: &[u8; HASH_SALT_SIZE],
        nonce: &[u8; NONCE_SIZE],
    ) -> (r: Result<(), VaultError>)
        requires
            old(self).well_formed(),
        ensures
            final(self).well_formed(),
            !old(self).initialized() || old(self).unlocked() ==> r == Err::<(), VaultError>(
                VaultError::InvalidState,
            ) && final(self).same_persisted(old(self)) && final(self).spec_key() == old(
                self).spec_key(),
            old(self).initialized() && !old(self).unlocked() ==> ({
                let check = phc_check(
                    old(self).spec_config()->0.master_password_hash@,
                    old_password.spec_bytes(),
                );
                &&& (check is None ==> r == Err::<(), VaultError>(VaultError::FormatError))
                &&& (check == Some(false) ==> r == Err::<(), VaultError>(
                    VaultError::AuthenticationError,
                ))
                &&& (check != Some(true) ==> final(self).same_persisted(old(self))
                    && final(self).spec_key() == old(self).spec_key())
                &&& (check == Some(true) ==> rotation_exact(
                    *old(self),
                    *final(self),
                    old_password.spec_bytes(),
                    new_password.spec_bytes(),
                    token_present,
                    bytes_result(old_answer),
                    bytes_result(new_answer),
                    new_salt@,
                    nonce@,
                    r,
                ))
            }),
    {
        if !self.is_initialized() || self.is_unlocked() {
            return Err(VaultError::InvalidState);
        }
        let checked = self.check_password(old_password);
        if checked.is_err() {
            return checked;
        }
        self.finish_rotation(
            old_password,
            new_password,
            token_present,
            old_answer,
            new_answer,
            new_salt,
            hash_salt,
            nonce,
        )
    }

    /// Changes the master password: checks `old_password` as `unlock` does,
    /// asks the token where the hardware factor is on, draws a new salt, a new
    /// verification hash's salt and a nonce, and re-keys the vault through the
    /// same steps as `change_master_password_with`. The hardware-factor
    /// setting is kept as it was. Valid only while initialized and locked; on
    /// any failure nothing changes.
    pub fn change_master_password<H: HardwareToken>(
        &mut self,
        old_password: &str,
        new_password: &str,
        token: &mut H,
    ) -> (r: Result<(), VaultError>)
        requires
            old(self).well_formed(),
        ensures
            final(self).well_formed(),
            rotation_outcome(
                *old(self),
                *final(self),
                old_password.spec_bytes(),
                new_password.spec_bytes(),
                r,
            ),
    {
        if !self.is_initialized() || self.is_unlocked() {
            return Err(VaultError::InvalidState);
        }
        let checked = self.check_password(old_password);
        if checked.is_err() {
            return checked;
        }
        let (hardware, old_challenge) = match &self.config {
            Some(c) => (c.yubikey_enabled, hardware_challenge(c.salt.as_slice())),
            None => {
                return Err(VaultError::InvalidState);
            },
        };
        let present = if hardware {
            token.is_present()
        } else {
            true
        };
        let old_answer = if hardware && present {
            token.respond(&old_challenge)
        } else {
            Err(VaultError::HardwareUnavailable)
        };
        let new_salt = match generate_salt() {
            Ok(v) => v,
            Err(e) => {
                return Err(e);
            },
        };
        let hash_salt = match random_array::<HASH_SALT_SIZE>() {
            Ok(v) => v,
            Err(e) => {
                return Err(e);
            },
        };
        let nonce = match random_array::<NONCE_SIZE>() {
            Ok(v) => v,
            Err(e) => {
                return Err(e);
            },
        };
        let new_answer = if hardware && present {
            token.respond(&hardware_challenge(new_salt.as_slice()))
        } else {
            Err(VaultError::HardwareUnavailable)
        };
        let r = self.finish_rotation(
            old_password,
            new_password,
            present,
            old_answer,
            new_answer,
            &new_salt,
            &hash_salt,
            &nonce,
        );
        proof {
            let c0 = old(self).spec_config()->0;
            let ko = vault_key_outcome(
                old_password.spec_bytes(),
                c0.salt@,
                c0.yubikey_enabled,
                present,
                bytes_result(old_answer),
            );
            let kn = vault_key_outcome(
                new_password.spec_bytes(),
                new_salt@,
                c0.yubikey_enabled,
                present,
                bytes_result(new_answer),
            );
            if r is Ok {
                lemma_outcome_key_derived(
                    old_password.spec_bytes(),
                    c0.salt@,
                    c0.yubikey_enabled,
                    present,
                    bytes_result(old_answer),
                );
                lemma_outcome_key_derived(
                    new_password.spec_bytes(),
                    new_salt@,
                    c0.yubikey_enabled,
                    present,
                    bytes_result(new_answer),
                );
                let m = choose|m: Seq<u8>|
                    #[trigger] open_outcome(old(self).spec_store()->0, ko->Ok_0, Ok(m)) && m.len()
                        <= MAX_PLAINTEXT && self.spec_store() == Some(
                        nonce@ + gcm_seal(kn->Ok_0, nonce@, m),
                    );
                let st = self.spec_store()->0;
                assert(st.subrange(0, NONCE_SIZE as int) =~= nonce@);
                assert(st.subrange(NONCE_SIZE as int, st.len() as int) =~= gcm_seal(
                    kn->Ok_0,
                    nonce@,
                    m,
                ));
                assert(key_derived(old_password.spec_bytes(), c0.salt@, c0.yubikey_enabled, ko->Ok_0)
                    && open_outcome(old(self).spec_store()->0, ko->Ok_0, Ok(m)) && m.len()
                    <= MAX_PLAINTEXT && is_sealing_of(st, kn->Ok_0, m));
            }
        }
        r
    }

    /// A copy of the sealed store, as persisted. Valid only while initialized.
    pub fn export(&self) -> (r: Result<Vec<u8>, VaultError>)
        ensures
            !self.initialized() ==> r == Err::<Vec<u8>, VaultError>(VaultError::InvalidState),
            self.initialized() ==> r is Ok && self.spec_store() == Some(r->Ok_0@),
    {
        if !self.is_initialized() {
            return Err(VaultError::InvalidState);
        }
        match &self.store {
            Some(s) => Ok(s.clone()),
            None => Err(VaultError::InvalidState),
        }
    }

    /// Replaces the sealed store with `candidate`, only after it opens under
    /// the held key. Valid only while unlocked; on failure nothing changes.
    pub fn import(&mut self, candidate: Vec<u8>) -> (r: Result<(), VaultError>)
        requires
            old(self).well_formed(),
        ensures
            final(self).well_formed(),
            final(self).spec_config() == old(self).spec_config(),
            final(self).spec_key() == old(self).spec_key(),
            !old(self).unlocked() ==> r == Err::<(), VaultError>(VaultError::InvalidState),
            old(self).unlocked() && (exists|m: Seq<u8>|
                m.len() <= MAX_PLAINTEXT && #[trigger] is_sealing_of(
                    candidate@,
                    old(self).spec_key()->0,
                    m,
                )) ==> r is Ok,
            r is Err && old(self).unlocked() ==> forall|m: Seq<u8>|
                m.len() <= MAX_PLAINTEXT ==> !#[trigger] is_sealing_of(
                    candidate@,
                    old(self).spec_key()->0,
                    m,
                ),
            r is Err && old(self).unlocked() ==> r == Err::<(), VaultError>(
                VaultError::FormatError,
            ) || r == Err::<(), VaultError>(VaultError::IntegrityError),
            r is Err ==> final(self).spec_store() == old(self).spec_store(),
            r is Ok ==> final(self).spec_store() == Some(candidate@),
    {
        let opened = self.open_blob(candidate.as_slice());
        match opened {
            Ok(_) => {
                self.store = Some(candidate);
                Ok(())
            },
            Err(e) => Err(e),
        }
    }

    /// Adds an identity to a decoded store. Valid only while unlocked.
    pub fn add_identity(&self, data: &mut VaultData, identity: Identity) -> (r: Result<
        (),
        VaultError,
    >)
        ensures
            !self.unlocked() ==> r == Err::<(), VaultError>(VaultError::InvalidState),
            self.unlocked() ==> (r is Err <==> old(data).has_service(identity.service@)),
            self.unlocked() && r is Err ==> r->Err_0 == VaultError::AlreadyExists,
            r is Err ==> final(data).identities@ == old(data).identities@,
            r is Ok ==> final(data).identities@ == old(data).identities@.push(
                (identity.service, identity),
            ),
            old(data).well_formed() ==> final(data).well_formed(),
    {
        if !self.is_unlocked() {
            return Err(VaultError::InvalidState);
        }
        data.add_identity(identity)
    }

    /// The identity stored under `service` in a decoded store. Valid only
    /// while unlocked.
    pub fn get_identity<'a>(&self, data: &'a VaultData, service: &str) -> (r: Result<
        &'a Identity,
        VaultError,
    >)
        ensures
            !self.unlocked() ==> r == Err::<&Identity, VaultError>(VaultError::InvalidState),
            self.unlocked() ==> (r is Err <==> !data.has_service(service@)),
            self.unlocked() && r is Err ==> r->Err_0 == VaultError::NotFound,
            r is Ok ==> exists|i: int|
                0 <= i < data.identities@.len() && data.identities@[i].0@ == service@ && *r->Ok_0
                    == #[trigger] data.identities@[i].1,
    {
        if !self.is_unlocked() {
            return Err(VaultError::InvalidState);
        }
        data.get_identity(service)
    }

    /// Replaces the identity stored under `service` in a decoded store,
    /// stamping it with the update time. Valid only while unlocked.
    pub fn update_identity(&self, data: &mut VaultData, service: &str, identity: Identity) -> (r:
        Result<(), VaultError>)
        ensures
            !self.unlocked() ==> r == Err::<(), VaultError>(VaultError::InvalidState),
            self.unlocked() ==> (r is Err <==> !old(data).has_service(service@)),
            self.unlocked() && r is Err ==> r->Err_0 == VaultError::NotFound,
            r is Err ==> final(data).identities@ == old(data).identities@,
            r is Ok ==> exists|i: int|
                0 <= i < old(data).identities@.len() && old(data).identities@[i].0@ == service@
                    && #[trigger] final(data).identities@[i].0 == old(data).identities@[i].0
                    && final(data).identities@ == old(data).identities@.update(
                    i,
                    final(data).identities@[i],
                ) && final(data).identities@[i].1.service == identity.service
                    && final(data).identities@[i].1.created_at == identity.created_at
                    && final(data).identities@[i].1.credentials == identity.credentials
                    && final(data).identities@[i].1.personal_info == identity.personal_info
                    && final(data).identities@[i].1.notes == identity.notes,
            old(data).well_formed() ==> final(data).well_formed(),
    {
        if !self.is_unlocked() {
            return Err(VaultError::InvalidState);
        }
        data.update_identity(service, identity)
    }

    /// Lists the service names of a decoded store, in ascending order. Valid
    /// only while unlocked.
    pub fn list_services(&self, data: &VaultData) -> (r: Result<Vec<String>, VaultError>)
        ensures
            !self.unlocked() ==> r == Err::<Vec<String>, VaultError>(VaultError::InvalidState),
            self.unlocked() ==> r is Ok && r->Ok_0@.to_multiset() == data.services().to_multiset()
                && sorted_strings(r->Ok_0@),
    {
        if !self.is_unlocked() {
            return Err(VaultError::InvalidState);
        }
        Ok(data.list_services())
    }

    /// Deletes the identity stored under `service` in a decoded store. Valid
    /// only while unlocked.
    pub fn delete_identity(&self, data: &mut VaultData, service: &str) -> (r: Result<
        (),
        VaultError,
    >)
        ensures
            !self.unlocked() ==> r == Err::<(), VaultError>(VaultError::InvalidState) && final(data).identities@ == old(data).identities@,
            self.unlocked() ==> (r is Err <==> !old(data).has_service(service@)),
            self.unlocked() && r is Err ==> r->Err_0 == VaultError::NotFound,
            r is Err ==> final(data).identities@ == old(data).identities@,
            r is Ok ==> exists|i: int|
                0 <= i < old(data).identities@.len() && #[trigger] old(data).identities@[i].0@
                    == service@ && final(data).identities@ == old(data).identities@.remove(i),
            old(data).well_formed() ==> final(data).well_formed(),
    {
        if !self.is_unlocked() {
            return Err(VaultError::InvalidState);
        }
        data.delete_identity(service)
    }
}

impl Drop for Vault {
    /// Erases the held key when the vault goes away.
    fn drop(&mut self)
        opens_invariants none
        no_unwind
    {
        if let Some(key) = &mut self.key {
            zeroize_bytes(key);
        }
    }
}

} // verus!
