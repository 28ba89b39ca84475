use kafkalite::error::AppError;
use kafkalite::kafka::config_builder::{
    build_client_config, parse_bootstrap_servers, sasl_mechanism_str, security_protocol_str,
    split_server_list, ConnectionProfile, SaslMechanism, SecurityProtocol,
};
use kafkalite::security::credential::CredentialService;
use kafkalite::text::join_strings;

fn profile() -> ConnectionProfile {
    ConnectionProfile {
        id: "p1".to_string(),
        name: "local".to_string(),
        bootstrap_servers: vec!["a:9092".to_string(), "b:9093".to_string()],
        security_protocol: SecurityProtocol::SaslSsl,
        sasl_mechanism: Some(SaslMechanism::ScramSha512),
        username: Some("alice".to_string()),
        credential_ref: Some("kafkalite:p1".to_string()),
        ssl_ca_path: Some("/ca.pem".to_string()),
        ssl_certificate_path: None,
        ssl_key_path: None,
        client_id: "client-x".to_string(),
        request_timeout_ms: 2500,
    }
}

#[test]
fn parses_bootstrap_servers() {
    let servers = parse_bootstrap_servers(" a:9092 , ,b:9093,\t").unwrap();
    assert_eq!(servers, vec!["a:9092".to_string(), "b:9093".to_string()]);
}

#[test]
fn empty_bootstrap_servers_are_refused() {
    assert_eq!(
        parse_bootstrap_servers(" , ,"),
        Err(AppError::InvalidRequest("Bootstrap servers cannot be empty".to_string()))
    );
    assert!(parse_bootstrap_servers("").is_err());
}

#[test]
fn server_list_reads_back_after_join() {
    let first = split_server_list(" x:1 ,, y:2 ,z:3");
    let joined = join_strings(&first, ',');
    assert_eq!(joined, "x:1,y:2,z:3");
    assert_eq!(split_server_list(&joined), first);
}

#[test]
fn protocol_and_mechanism_names() {
    assert_eq!(security_protocol_str(&SecurityProtocol::Plaintext), "PLAINTEXT");
    assert_eq!(security_protocol_str(&SecurityProtocol::SaslPlaintext), "SASL_PLAINTEXT");
    assert_eq!(sasl_mechanism_str(&SaslMechanism::ScramSha256), "SCRAM-SHA-256");
    assert_eq!(sasl_mechanism_str(&SaslMechanism::Plain), "PLAIN");
}

#[test]
fn client_config_holds_profile_settings() {
    let mut store = CredentialService::new();
    store.save_secret("p1", "secret");
    let config = build_client_config(&profile(), &store);
    assert_eq!(config.get("bootstrap.servers"), Some("a:9092,b:9093"));
    assert_eq!(config.get("client.id"), Some("client-x"));
    assert_eq!(config.get("socket.timeout.ms"), Some("2500"));
    assert_eq!(config.get("security.protocol"), Some("SASL_SSL"));
    assert_eq!(config.get("sasl.mechanism"), Some("SCRAM-SHA-512"));
    assert_eq!(config.get("sasl.username"), Some("alice"));
    assert_eq!(config.get("sasl.password"), Some("secret"));
    assert_eq!(config.get("ssl.ca.location"), Some("/ca.pem"));
    assert_eq!(config.get("ssl.certificate.location"), None);
    assert_eq!(config.get("ssl.key.location"), None);
}

#[test]
fn client_config_without_stored_password() {
    let store = CredentialService::new();
    let mut p = profile();
    p.sasl_mechanism = None;
    p.username = None;
    let config = build_client_config(&p, &store);
    assert_eq!(config.get("sasl.password"), None);
    assert_eq!(config.get("sasl.mechanism"), None);
    assert_eq!(config.get("sasl.username"), None);
}
