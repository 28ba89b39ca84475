use kafkalite::security::credential::{credential_ref_for, CredentialService};

#[test]
fn secret_is_read_back_after_save() {
    let mut store = CredentialService::new();
    let r = store.save_secret("conn-1", "pw");
    assert_eq!(r, "kafkalite:conn-1");
    assert_eq!(store.get_secret(&r), Some("pw".to_string()));
    assert_eq!(store.get_secret("kafkalite:other"), None);
}

#[test]
fn saving_again_replaces_the_secret() {
    let mut store = CredentialService::new();
    store.save_secret("c", "one");
    store.save_secret("d", "other");
    store.save_secret("c", "two");
    assert_eq!(store.get_secret("kafkalite:c"), Some("two".to_string()));
    assert_eq!(store.get_secret("kafkalite:d"), Some("other".to_string()));
}

#[test]
fn deleted_secret_is_gone_and_others_stay() {
    let mut store = CredentialService::new();
    store.save_secret("a", "1");
    store.save_secret("b", "2");
    store.delete_secret("kafkalite:a");
    assert_eq!(store.get_secret("kafkalite:a"), None);
    assert_eq!(store.get_secret("kafkalite:b"), Some("2".to_string()));
    store.delete_secret("kafkalite:missing");
    assert_eq!(store.get_secret("kafkalite:b"), Some("2".to_string()));
}

#[test]
fn fresh_credential_refs_are_prefixed_uuids() {
    let a = CredentialService::new_credential_ref();
    let b = CredentialService::new_credential_ref();
    assert!(a.starts_with("kafkalite:"));
    assert_eq!(a.len(), "kafkalite:".len() + 36);
    assert!(a["kafkalite:".len()..].chars().all(|c| c.is_ascii_digit() || ('a'..='f').contains(&c) || c == '-'));
    assert_ne!(a, b);
    assert_eq!(credential_ref_for("x"), "kafkalite:x");
}
