use kafkalite::error::AppError;
use kafkalite::kafka::config_builder::{ConnectionProfile, SecurityProtocol};
use kafkalite::kafka::connection_manager::{admin_consumer_config, map_kafka_error, ConnectionManager};
use kafkalite::security::credential::CredentialService;

fn profile(id: &str) -> ConnectionProfile {
    ConnectionProfile {
        id: id.to_string(),
        name: format!("name-{id}"),
        bootstrap_servers: vec!["h:1".to_string()],
        security_protocol: SecurityProtocol::Plaintext,
        sasl_mechanism: None,
        username: None,
        credential_ref: None,
        ssl_ca_path: None,
        ssl_certificate_path: None,
        ssl_key_path: None,
        client_id: "c".to_string(),
        request_timeout_ms: 10,
    }
}

#[test]
fn connect_makes_profile_active_and_readable() {
    let mut m: ConnectionManager<u32> = ConnectionManager::new();
    assert!(m.active_profile().is_none());
    assert_eq!(m.get_profile("a"), Err(AppError::NotConnected));
    m.connect(profile("a"), 1);
    m.connect(profile("b"), 2);
    assert_eq!(m.active_profile().map(|p| p.id.clone()), Some("b".to_string()));
    assert_eq!(m.get_profile("a").unwrap(), profile("a"));
    assert_eq!(m.bundle("a").unwrap().clients, 1);
    assert!(matches!(m.bundle("z"), Err(AppError::NotConnected)));
}

#[test]
fn disconnect_forgets_and_clears_active() {
    let mut m: ConnectionManager<u32> = ConnectionManager::new();
    m.connect(profile("a"), 1);
    m.connect(profile("b"), 2);
    m.disconnect("a");
    assert_eq!(m.get_profile("a"), Err(AppError::NotConnected));
    assert_eq!(m.active_profile().map(|p| p.id.clone()), Some("b".to_string()));
    m.disconnect("b");
    assert!(m.active_profile().is_none());
}

#[test]
fn reconnecting_replaces_the_bundle() {
    let mut m: ConnectionManager<u32> = ConnectionManager::new();
    m.connect(profile("a"), 1);
    m.connect(profile("a"), 5);
    assert_eq!(m.bundle("a").unwrap().clients, 5);
}

#[test]
fn kafka_errors_are_classified() {
    assert_eq!(
        map_kafka_error("SASL handshake failed".to_string()),
        AppError::KafkaAuth("SASL handshake failed".to_string())
    );
    assert_eq!(map_kafka_error("Request Timed Out".to_string()), AppError::KafkaTimeout);
    assert_eq!(map_kafka_error("socket timeout".to_string()), AppError::KafkaTimeout);
    assert_eq!(
        map_kafka_error("broker down".to_string()),
        AppError::KafkaConnection("broker down".to_string())
    );
}

#[test]
fn admin_consumer_settings() {
    let config = admin_consumer_config(&profile("p9"), &CredentialService::new());
    assert_eq!(config.get("group.id"), Some("kafkalite-admin-p9"));
    assert_eq!(config.get("enable.auto.commit"), Some("false"));
    assert_eq!(config.get("client.id"), Some("c"));
}
