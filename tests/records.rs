use aliaser::error::VaultError;
use aliaser::identity::{Credentials, CustomField, Identity, PersonalInfo, VaultData};
use aliaser::storage::Vault;
use aliaser::yubikey::NoToken;

fn credentials(user: &str) -> Credentials {
    Credentials {
        username: user.to_string(),
        password: "pw".to_string(),
        email: None,
        alias: Some("alias".to_string()),
    }
}

fn unlocked_vault() -> Vault {
    let mut v = Vault::new(None, None);
    v.initialize("correct horse battery staple", false, &mut NoToken, b"{}").unwrap();
    v
}

#[test]
fn identity_new_sets_fields() {
    let id = Identity::new("github".to_string(), credentials("alice"));
    assert_eq!(id.service, "github");
    assert_eq!(id.credentials.username, "alice");
    assert_eq!(id.created_at, id.updated_at);
    assert!(id.personal_info.is_none());
    assert!(id.notes.is_none());
    assert!(id.created_at.secs > 0);
}

#[test]
fn personal_info_fields() {
    let mut info = PersonalInfo::new();
    assert!(info.first_name.is_none());
    assert!(info.custom_fields.is_empty());
    info.add_custom_field("k".to_string(), "v".to_string());
    info.add_custom_field("k2".to_string(), "v2".to_string());
    assert_eq!(info.custom_fields.len(), 2);
    let CustomField { key, value } = &info.custom_fields[1];
    assert_eq!((key.as_str(), value.as_str()), ("k2", "v2"));
    let d = PersonalInfo::default();
    assert!(d.phone.is_none() && d.custom_fields.is_empty());
}

#[test]
fn add_get_and_duplicate() {
    let mut data = VaultData::new();
    data.add_identity(Identity::new("github".to_string(), credentials("alice"))).unwrap();
    assert_eq!(
        data.add_identity(Identity::new("github".to_string(), credentials("bob"))).err(),
        Some(VaultError::AlreadyExists)
    );
    assert_eq!(data.get_identity("github").unwrap().credentials.username, "alice");
    assert_eq!(data.get_identity("gitlab").err(), Some(VaultError::NotFound));
}

#[test]
fn list_services_is_sorted() {
    let mut data = VaultData::new();
    for s in ["zeta", "alpha", "Mid", "beta"] {
        data.add_identity(Identity::new(s.to_string(), credentials("u"))).unwrap();
    }
    assert_eq!(data.list_services(), vec!["Mid", "alpha", "beta", "zeta"]);
    assert!(VaultData::new().list_services().is_empty());
}

#[test]
fn update_replaces_and_stamps() {
    let mut data = VaultData::new();
    data.add_identity(Identity::new("github".to_string(), credentials("alice"))).unwrap();
    let mut changed = Identity::new("github".to_string(), credentials("carol"));
    changed.notes = Some("note".to_string());
    let created = changed.created_at;
    data.update_identity("github", changed).unwrap();
    let got = data.get_identity("github").unwrap();
    assert_eq!(got.credentials.username, "carol");
    assert_eq!(got.notes.as_deref(), Some("note"));
    assert_eq!(got.created_at, created);
    assert!(got.updated_at.secs >= created.secs);
    assert_eq!(
        data.update_identity("nothing", Identity::new("x".to_string(), credentials("u"))).err(),
        Some(VaultError::NotFound)
    );
}

#[test]
fn delete_removes_or_reports_missing() {
    let mut data = VaultData::new();
    data.add_identity(Identity::new("a".to_string(), credentials("u"))).unwrap();
    data.add_identity(Identity::new("b".to_string(), credentials("u"))).unwrap();
    data.delete_identity("a").unwrap();
    assert_eq!(data.list_services(), vec!["b"]);
    assert_eq!(data.delete_identity("a").err(), Some(VaultError::NotFound));
}

#[test]
fn vault_record_operations_need_unlock() {
    let v = unlocked_vault();
    let mut data = VaultData::new();
    v.add_identity(&mut data, Identity::new("s".to_string(), credentials("u"))).unwrap();
    assert_eq!(v.list_services(&data).unwrap(), vec!["s"]);
    assert_eq!(v.get_identity(&data, "s").unwrap().service, "s");
    v.update_identity(&mut data, "s", Identity::new("s".to_string(), credentials("w"))).unwrap();
    v.delete_identity(&mut data, "s").unwrap();
    assert_eq!(v.delete_identity(&mut data, "s"), Err(VaultError::NotFound));
    v.add_identity(&mut data, Identity::new("t".to_string(), credentials("u"))).unwrap();
    assert_eq!(
        v.add_identity(&mut data, Identity::new("t".to_string(), credentials("u"))),
        Err(VaultError::AlreadyExists)
    );
    assert_eq!(
        v.update_identity(&mut data, "none", Identity::new("none".to_string(), credentials("u"))),
        Err(VaultError::NotFound)
    );

    let locked = Vault::new(v.config().cloned(), v.store().cloned());
    assert_eq!(locked.list_services(&data), Err(VaultError::InvalidState));
    assert_eq!(locked.delete_identity(&mut data, "s"), Err(VaultError::InvalidState));
    assert_eq!(
        locked.add_identity(&mut data, Identity::new("s".to_string(), credentials("u"))),
        Err(VaultError::InvalidState)
    );
    assert_eq!(locked.get_identity(&data, "s").err(), Some(VaultError::InvalidState));
}
