use kafkalite::kafka::config_builder::{SaslMechanism, SaveConnectionRequest, SecurityProtocol};
use kafkalite::storage::{
    connection_record, parse_sasl_mechanism, parse_security_protocol, profile_from_record,
    upsert_connection, StoredConnection,
};

fn request() -> SaveConnectionRequest {
    SaveConnectionRequest {
        id: None,
        name: "prod".to_string(),
        bootstrap_servers: " k1:9092, k2:9092 ".to_string(),
        security_protocol: SecurityProtocol::Ssl,
        sasl_mechanism: Some(SaslMechanism::ScramSha256),
        username: Some("bob".to_string()),
        password: Some("pw".to_string()),
        ssl_ca_path: None,
        ssl_certificate_path: Some("/cert".to_string()),
        ssl_key_path: None,
        client_id: None,
        request_timeout_ms: None,
    }
}

#[test]
fn record_of_a_new_connection() {
    let rec = connection_record(
        request(),
        "0123456789abcdef".to_string(),
        Some("kafkalite:x".to_string()),
    )
    .unwrap();
    assert_eq!(rec.id, "0123456789abcdef");
    assert_eq!(rec.bootstrap_servers, "k1:9092,k2:9092");
    assert_eq!(rec.security_protocol, "SSL");
    assert_eq!(rec.sasl_mechanism, Some("SCRAM-SHA-256".to_string()));
    assert_eq!(rec.client_id, "kafkalite-01234567");
    assert_eq!(rec.timeout_ms, 10000);
    assert_eq!(rec.credential_ref, Some("kafkalite:x".to_string()));
}

#[test]
fn requested_id_and_client_id_are_kept() {
    let mut q = request();
    q.id = Some("abc".to_string());
    q.client_id = Some("mine".to_string());
    q.request_timeout_ms = Some(u64::MAX);
    let rec = connection_record(q, "unused".to_string(), None).unwrap();
    assert_eq!(rec.id, "abc");
    assert_eq!(rec.client_id, "mine");
    assert_eq!(rec.timeout_ms, -1);
    let p = profile_from_record(rec);
    assert_eq!(p.request_timeout_ms, u64::MAX);
}

#[test]
fn short_id_gives_whole_id_as_client_suffix() {
    let mut q = request();
    q.id = Some("ab".to_string());
    let rec = connection_record(q, "unused".to_string(), None).unwrap();
    assert_eq!(rec.client_id, "kafkalite-ab");
}

#[test]
fn record_refuses_empty_servers() {
    let mut q = request();
    q.bootstrap_servers = " ".to_string();
    assert!(connection_record(q, "id".to_string(), None).is_err());
}

#[test]
fn saved_connection_reads_back() {
    let q = request();
    let rec = connection_record(q.clone(), "fresh-id-123".to_string(), None).unwrap();
    let p = profile_from_record(rec);
    assert_eq!(p.id, "fresh-id-123");
    assert_eq!(p.name, "prod");
    assert_eq!(p.bootstrap_servers, vec!["k1:9092".to_string(), "k2:9092".to_string()]);
    assert_eq!(p.security_protocol, SecurityProtocol::Ssl);
    assert_eq!(p.sasl_mechanism, Some(SaslMechanism::ScramSha256));
    assert_eq!(p.username, Some("bob".to_string()));
    assert_eq!(p.ssl_certificate_path, Some("/cert".to_string()));
    assert_eq!(p.client_id, "kafkalite-fresh-id");
    assert_eq!(p.request_timeout_ms, 10000);
}

#[test]
fn unknown_names_read_as_defaults() {
    assert_eq!(parse_security_protocol("SASL_SSL"), SecurityProtocol::SaslSsl);
    assert_eq!(parse_security_protocol("bogus"), SecurityProtocol::Plaintext);
    assert_eq!(parse_sasl_mechanism("SCRAM-SHA-512"), SaslMechanism::ScramSha512);
    assert_eq!(parse_sasl_mechanism("plain"), SaslMechanism::Plain);
}

#[test]
fn resaving_keeps_the_stored_credential_and_creation_time() {
    let first = connection_record(request(), "0123456789abcdef".to_string(), Some("kafkalite:a".to_string())).unwrap();
    let stored = upsert_connection(None, first, 100);
    assert_eq!(stored.created_at, 100);
    assert_eq!(stored.updated_at, 100);

    let mut again = request();
    again.id = Some("0123456789abcdef".to_string());
    again.name = "renamed".to_string();
    let second = connection_record(again.clone(), String::new(), None).unwrap();
    let row = upsert_connection(Some(stored.clone()), second, 200);
    assert_eq!(row.created_at, 100);
    assert_eq!(row.updated_at, 200);
    assert_eq!(row.record.name, "renamed");
    assert_eq!(row.record.credential_ref, Some("kafkalite:a".to_string()));
    assert_eq!(profile_from_record(row.record).credential_ref, Some("kafkalite:a".to_string()));

    let third = connection_record(again, String::new(), Some("kafkalite:b".to_string())).unwrap();
    let row = upsert_connection(Some(stored), third, 300);
    assert_eq!(row.record.credential_ref, Some("kafkalite:b".to_string()));
    assert_eq!(row.created_at, 100);
}

#[test]
fn empty_servers_are_refused_before_the_client_id_is_cut() {
    let mut q = request();
    q.bootstrap_servers = " , ".to_string();
    q.id = Some("aéééé".to_string());
    let err = connection_record(q, String::new(), None).unwrap_err();
    assert_eq!(err, kafkalite::error::AppError::InvalidRequest("Bootstrap servers cannot be empty".to_string()));
}
