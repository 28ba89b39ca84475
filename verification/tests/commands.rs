use kafkalite::commands::connection::{
    forget_profile_secret, require_profile_request, resolve_request_profile,
    store_request_password,
};
use kafkalite::commands::topic::expected_delete_confirmation;
use kafkalite::error::AppError;
use kafkalite::kafka::admin_service::DeleteRecordsTarget;
use kafkalite::kafka::config_builder::{SaveConnectionRequest, SecurityProtocol};
use kafkalite::kafka::producer_service::{check_tombstone_request, produce_result, ProduceTombstoneRequest};
use kafkalite::security::credential::CredentialService;

fn request(password: Option<&str>) -> SaveConnectionRequest {
    SaveConnectionRequest {
        id: Some("id1".to_string()),
        name: "n".to_string(),
        bootstrap_servers: "a:1,b:2".to_string(),
        security_protocol: SecurityProtocol::SaslPlaintext,
        sasl_mechanism: None,
        username: None,
        password: password.map(|p| p.to_string()),
        ssl_ca_path: None,
        ssl_certificate_path: None,
        ssl_key_path: None,
        client_id: None,
        request_timeout_ms: None,
    }
}

#[test]
fn confirmation_text_for_record_deletion() {
    let targets = vec![
        DeleteRecordsTarget { partition: 0, before_offset: 10 },
        DeleteRecordsTarget { partition: 3, before_offset: -1 },
    ];
    assert_eq!(expected_delete_confirmation("prod", "orders", &targets), "prod/orders/0:10,3:-1");
    assert_eq!(expected_delete_confirmation("p", "t", &vec![]), "p/t/");
}

#[test]
fn only_non_empty_passwords_are_kept() {
    let mut store = CredentialService::new();
    assert_eq!(store_request_password(&request(Some("")), "f".to_string(), &mut store), None);
    assert_eq!(store_request_password(&request(None), "f".to_string(), &mut store), None);
    let r = store_request_password(&request(Some("pw")), "f".to_string(), &mut store);
    assert_eq!(r, Some("kafkalite:id1".to_string()));
    assert_eq!(store.get_secret("kafkalite:id1"), Some("pw".to_string()));
    let mut q = request(Some("x"));
    q.id = None;
    let r = store_request_password(&q, "fresh".to_string(), &mut store);
    assert_eq!(r, Some("kafkalite:fresh".to_string()));
}

#[test]
fn test_profile_from_request() {
    let mut store = CredentialService::new();
    let p = resolve_request_profile(request(Some("pw")), "f".to_string(), &mut store).unwrap();
    assert_eq!(p.id, "id1");
    assert_eq!(p.bootstrap_servers, vec!["a:1".to_string(), "b:2".to_string()]);
    assert_eq!(p.client_id, "kafkalite-test");
    assert_eq!(p.request_timeout_ms, 10000);
    assert_eq!(p.credential_ref, Some("kafkalite:id1".to_string()));
    let mut q = request(Some("pw2"));
    q.bootstrap_servers = ",".to_string();
    q.id = None;
    assert_eq!(
        resolve_request_profile(q, "g".to_string(), &mut store),
        Err(AppError::InvalidRequest("Bootstrap servers cannot be empty".to_string()))
    );
    assert_eq!(store.get_secret("kafkalite:g"), Some("pw2".to_string()));
    assert_eq!(
        require_profile_request(None),
        Err(AppError::InvalidRequest("Connection profile is required".to_string()))
    );
    assert!(require_profile_request(Some(request(None))).is_ok());
}

#[test]
fn forgetting_a_profile_secret() {
    let mut store = CredentialService::new();
    let mut q = request(Some("pw"));
    let p = resolve_request_profile(q.clone(), "f".to_string(), &mut store).unwrap();
    forget_profile_secret(&p, &mut store);
    assert_eq!(store.get_secret("kafkalite:id1"), None);
    q.password = None;
    let p = resolve_request_profile(q, "f".to_string(), &mut store).unwrap();
    assert_eq!(p.credential_ref, None);
    forget_profile_secret(&p, &mut store);
}

#[test]
fn tombstone_checks_and_results() {
    let mut q = ProduceTombstoneRequest {
        connection_id: "c".to_string(),
        topic: "t".to_string(),
        key: "k".to_string(),
        partition: None,
    };
    assert_eq!(check_tombstone_request(&q), Ok(()));
    q.key.clear();
    assert_eq!(
        check_tombstone_request(&q),
        Err(AppError::InvalidRequest("Tombstone requires a non-empty key".to_string()))
    );
    let r = produce_result(&q, 2, 99);
    assert_eq!((r.topic.as_str(), r.partition, r.offset), ("t", 2, 99));
}
