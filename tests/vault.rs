use aliaser::crypto::{derive_key, encrypt, seal_with_nonce};
use aliaser::error::VaultError;
use aliaser::storage::{Vault, FORMAT_VERSION};
use aliaser::yubikey::{HardwareToken, NoToken};

const EMPTY_STORE: &[u8] = b"{\"identities\":{}}";

/// A deterministic stand-in for a hardware token.
struct FakeToken {
    present: bool,
}

impl HardwareToken for FakeToken {
    fn is_present(&mut self) -> bool {
        self.present
    }

    fn respond(&mut self, challenge: &[u8; 64]) -> Result<Vec<u8>, VaultError> {
        if !self.present {
            return Err(VaultError::HardwareUnavailable);
        }
        Ok(challenge.iter().take(20).map(|b| b.wrapping_add(17)).collect())
    }
}

/// A fresh, locked vault over what `v` has persisted.
fn reopen(v: &Vault) -> Vault {
    Vault::new(v.config().cloned(), v.store().cloned())
}

fn initialized(password: &str) -> Vault {
    let mut v = Vault::new(None, None);
    v.initialize(password, false, &mut NoToken, EMPTY_STORE).unwrap();
    v
}

#[test]
fn new_vault_is_uninitialized() {
    let v = Vault::new(None, None);
    assert!(!v.is_initialized());
    assert!(!v.is_unlocked());
    assert_eq!(v.read_store(), Err(VaultError::InvalidState));
    assert_eq!(v.export(), Err(VaultError::InvalidState));
}

#[test]
fn initialize_unlocks_and_seals_initial_store() {
    let v = initialized("correct horse battery staple");
    assert!(v.is_initialized());
    assert!(v.is_unlocked());
    assert_eq!(v.read_store().unwrap(), EMPTY_STORE.to_vec());
    let c = v.config().unwrap();
    assert_eq!(c.salt.len(), 32);
    assert_eq!(c.version, FORMAT_VERSION);
    assert!(!c.yubikey_enabled);
    assert!(c.master_password_hash.starts_with("$argon2id$"));
}

#[test]
fn initialize_twice_is_invalid_state() {
    let mut v = initialized("correct horse battery staple");
    assert_eq!(
        v.initialize("another password", false, &mut NoToken, EMPTY_STORE),
        Err(VaultError::InvalidState)
    );
    let mut locked = reopen(&v);
    assert_eq!(
        locked.initialize("another password", false, &mut NoToken, EMPTY_STORE),
        Err(VaultError::InvalidState)
    );
}

#[test]
fn scenario_persist_and_reopen() {
    let pw = "correct horse battery staple";
    let v = initialized(pw);
    assert!(v.is_initialized());
    let mut v = reopen(&v);
    v.unlock(pw, &mut NoToken).unwrap();
    v.write_store(b"{\"service\":\"demo\"}").unwrap();
    let mut fresh = reopen(&v);
    fresh.unlock(pw, &mut NoToken).unwrap();
    assert_eq!(fresh.read_store().unwrap(), b"{\"service\":\"demo\"}".to_vec());
}

#[test]
fn unlock_wrong_password_stays_locked() {
    let v = initialized("correct horse battery staple");
    let mut locked = reopen(&v);
    assert_eq!(
        locked.unlock("wrong password", &mut NoToken),
        Err(VaultError::AuthenticationError)
    );
    assert!(!locked.is_unlocked());
    assert_eq!(locked.read_store(), Err(VaultError::InvalidState));
}

#[test]
fn unlock_when_unlocked_or_uninitialized_is_invalid_state() {
    let mut v = initialized("correct horse battery staple");
    assert_eq!(
        v.unlock("correct horse battery staple", &mut NoToken),
        Err(VaultError::InvalidState)
    );
    let mut empty = Vault::new(None, None);
    assert_eq!(empty.unlock("anything", &mut NoToken), Err(VaultError::InvalidState));
}

#[test]
fn scenario_hardware_absent_on_initialize() {
    let mut v = Vault::new(None, None);
    assert_eq!(
        v.initialize("correct horse battery staple", true, &mut NoToken, EMPTY_STORE),
        Err(VaultError::HardwareUnavailable)
    );
    assert!(!v.is_initialized());
    assert!(!v.is_unlocked());
}

#[test]
fn hardware_vault_needs_the_token() {
    let pw = "correct horse battery staple";
    let mut v = Vault::new(None, None);
    v.initialize(pw, true, &mut FakeToken { present: true }, EMPTY_STORE).unwrap();
    assert!(v.config().unwrap().yubikey_enabled);
    let mut without = reopen(&v);
    assert_eq!(without.unlock(pw, &mut NoToken), Err(VaultError::HardwareUnavailable));
    assert!(!without.is_unlocked());
    let mut with = reopen(&v);
    with.unlock(pw, &mut FakeToken { present: true }).unwrap();
    assert_eq!(with.read_store().unwrap(), EMPTY_STORE.to_vec());
}

#[test]
fn scenario_rotate_master_secret() {
    let old = "correct horse battery staple";
    let new = "a brand new master secret";
    let mut v = reopen(&initialized(old));
    v.unlock(old, &mut NoToken).unwrap();
    v.write_store(b"{\"service\":\"demo\"}").unwrap();
    let old_salt = v.config().unwrap().salt.clone();

    let mut r = reopen(&v);
    r.change_master_password(old, new, &mut NoToken).unwrap();
    assert!(r.is_unlocked());
    assert_ne!(r.config().unwrap().salt, old_salt);

    let mut with_old = reopen(&r);
    assert_eq!(with_old.unlock(old, &mut NoToken), Err(VaultError::AuthenticationError));
    let mut with_new = reopen(&r);
    with_new.unlock(new, &mut NoToken).unwrap();
    assert_eq!(with_new.read_store().unwrap(), b"{\"service\":\"demo\"}".to_vec());
}

#[test]
fn rotation_keeps_hardware_setting() {
    let old = "correct horse battery staple";
    let new = "a brand new master secret";
    let mut v = Vault::new(None, None);
    v.initialize(old, true, &mut FakeToken { present: true }, EMPTY_STORE).unwrap();
    let mut r = reopen(&v);
    r.change_master_password(old, new, &mut FakeToken { present: true }).unwrap();
    assert!(r.config().unwrap().yubikey_enabled);
    let mut again = reopen(&r);
    again.unlock(new, &mut FakeToken { present: true }).unwrap();
    assert_eq!(again.read_store().unwrap(), EMPTY_STORE.to_vec());
}

#[test]
fn rotation_with_wrong_password_changes_nothing() {
    let v = initialized("correct horse battery staple");
    let mut r = reopen(&v);
    assert_eq!(
        r.change_master_password("wrong", "new secret", &mut NoToken),
        Err(VaultError::AuthenticationError)
    );
    assert_eq!(r.store(), v.store());
    assert_eq!(r.config().unwrap().salt, v.config().unwrap().salt);
    assert!(!r.is_unlocked());
}

#[test]
fn rotation_from_wrong_state_is_invalid_state() {
    let mut v = initialized("correct horse battery staple");
    assert_eq!(
        v.change_master_password("correct horse battery staple", "x", &mut NoToken),
        Err(VaultError::InvalidState)
    );
}

#[test]
fn write_store_when_locked_is_invalid_state() {
    let v = initialized("correct horse battery staple");
    let mut locked = reopen(&v);
    assert_eq!(locked.write_store(b"data"), Err(VaultError::InvalidState));
    assert_eq!(locked.store(), v.store());
}

#[test]
fn corrupted_store_surfaces_integrity_error() {
    let pw = "correct horse battery staple";
    let v = initialized(pw);
    let mut blob = v.store().unwrap().clone();
    let last = blob.len() - 1;
    blob[last] ^= 0x80;
    let mut tampered = Vault::new(v.config().cloned(), Some(blob));
    tampered.unlock(pw, &mut NoToken).unwrap();
    assert_eq!(tampered.read_store(), Err(VaultError::IntegrityError));
}

#[test]
fn export_and_import() {
    let pw = "correct horse battery staple";
    let mut v = initialized(pw);
    let backup = v.export().unwrap();
    assert_eq!(Some(&backup), v.store());
    v.write_store(b"changed").unwrap();
    v.import(backup.clone()).unwrap();
    assert_eq!(v.store(), Some(&backup));
    assert_eq!(v.read_store().unwrap(), EMPTY_STORE.to_vec());
}

#[test]
fn import_of_foreign_blob_is_refused() {
    let mut v = initialized("correct horse battery staple");
    let before = v.store().cloned();
    let foreign = encrypt(b"{}", &[8u8; 32]).unwrap();
    assert_eq!(v.import(foreign), Err(VaultError::IntegrityError));
    assert_eq!(v.import(vec![1, 2, 3]), Err(VaultError::FormatError));
    assert_eq!(v.store().cloned(), before);
    let mut locked = reopen(&v);
    assert_eq!(locked.import(before.clone().unwrap()), Err(VaultError::InvalidState));
    assert_eq!(locked.open_blob(&before.unwrap()), Err(VaultError::InvalidState));
}

#[test]
fn initialize_from_is_exact() {
    let pw = "correct horse battery staple";
    let salt = [1u8; 32];
    let nonce = [4u8; 12];
    let mut v = Vault::new(None, None);
    v.initialize_from(pw, false, false, Err(VaultError::HardwareError), EMPTY_STORE, &salt, &[2u8; 16], &nonce)
        .unwrap();
    let key = derive_key(pw, &salt).unwrap();
    assert_eq!(v.store().unwrap(), &seal_with_nonce(EMPTY_STORE, &key, &nonce).unwrap());
    assert_eq!(v.config().unwrap().salt, salt.to_vec());
}

#[test]
fn initialize_from_reports_token_state() {
    let pw = "correct horse battery staple";
    let mut v = Vault::new(None, None);
    assert_eq!(
        v.initialize_from(pw, true, false, Ok(vec![1; 20]), EMPTY_STORE, &[1; 32], &[2; 16], &[3; 12]),
        Err(VaultError::HardwareUnavailable)
    );
    assert_eq!(
        v.initialize_from(pw, true, true, Ok(Vec::new()), EMPTY_STORE, &[1; 32], &[2; 16], &[3; 12]),
        Err(VaultError::HardwareError)
    );
    assert_eq!(
        v.initialize_from(pw, true, true, Err(VaultError::HardwareError), EMPTY_STORE, &[1; 32], &[2; 16], &[3; 12]),
        Err(VaultError::HardwareError)
    );
    assert!(!v.is_initialized());
    v.initialize_from(pw, true, true, Ok(vec![1; 20]), EMPTY_STORE, &[1; 32], &[2; 16], &[3; 12])
        .unwrap();
    assert!(v.config().unwrap().yubikey_enabled);
}

#[test]
fn unlock_with_reports_token_state() {
    let pw = "correct horse battery staple";
    let mut v = Vault::new(None, None);
    v.initialize_from(pw, true, true, Ok(vec![1; 20]), EMPTY_STORE, &[1; 32], &[2; 16], &[3; 12])
        .unwrap();
    let mut absent = reopen(&v);
    assert_eq!(absent.unlock_with(pw, false, Ok(vec![1; 20])), Err(VaultError::HardwareUnavailable));
    assert!(!absent.is_unlocked());
    let mut failing = reopen(&v);
    assert_eq!(failing.unlock_with(pw, true, Err(VaultError::HardwareError)), Err(VaultError::HardwareError));
    let mut wrong = reopen(&v);
    assert_eq!(wrong.unlock_with("nope", true, Ok(vec![1; 20])), Err(VaultError::AuthenticationError));
    let mut other = reopen(&v);
    other.unlock_with(pw, true, Ok(vec![2; 20])).unwrap();
    assert_eq!(other.read_store(), Err(VaultError::IntegrityError));
    let mut right = reopen(&v);
    right.unlock_with(pw, true, Ok(vec![1; 20])).unwrap();
    assert_eq!(right.read_store().unwrap(), EMPTY_STORE.to_vec());
}

#[test]
fn change_master_password_with_is_exact() {
    let old = "correct horse battery staple";
    let new = "a brand new master secret";
    let v = initialized(old);
    let mut r = reopen(&v);
    let nonce = [6u8; 12];
    let salt = [8u8; 32];
    r.change_master_password_with(old, new, false, Err(VaultError::HardwareError), Err(VaultError::HardwareError), &salt, &[9; 16], &nonce)
        .unwrap();
    let key = derive_key(new, &salt).unwrap();
    assert_eq!(r.store().unwrap(), &seal_with_nonce(EMPTY_STORE, &key, &nonce).unwrap());
    let mut wrong = reopen(&v);
    assert_eq!(
        wrong.change_master_password_with("bad", new, false, Err(VaultError::HardwareError), Err(VaultError::HardwareError), &salt, &[9; 16], &nonce),
        Err(VaultError::AuthenticationError)
    );
}

#[test]
fn write_store_with_nonce_is_exact() {
    let pw = "correct horse battery staple";
    let mut v = initialized(pw);
    let nonce = [5u8; 12];
    v.write_store_with_nonce(b"abc", &nonce).unwrap();
    let key = derive_key(pw, &v.config().unwrap().salt.clone()).unwrap();
    assert_eq!(v.store().unwrap(), &seal_with_nonce(b"abc", &key, &nonce).unwrap());
    let mut locked = reopen(&v);
    assert_eq!(locked.write_store_with_nonce(b"abc", &nonce), Err(VaultError::InvalidState));
}
