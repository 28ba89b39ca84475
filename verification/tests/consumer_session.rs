use kafkalite::error::AppError;
use kafkalite::kafka::admin_service::{PartitionMeta, TopicMeta};
use kafkalite::kafka::config_builder::{ConnectionProfile, SecurityProtocol};
use kafkalite::kafka::consumer_session::{
    assignments, choose_partitions, finish_idle, plan_start, session_consumer_config,
    session_failed, session_group_id, session_settings, timestamp_assignments,
    topic_partition_ids, ConsumeLoop, ConsumeRequest, ConsumeStart, ConsumerSessionManager,
    OffsetLookup, OffsetSpec, PartitionChoice, PartitionSelector, SessionEvent, SessionSettings,
    StartPosition,
};
use kafkalite::kafka::message_decoder::RawMessage;
use kafkalite::security::credential::CredentialService;

fn request() -> ConsumeRequest {
    ConsumeRequest {
        connection_id: "c".to_string(),
        topic: "t".to_string(),
        partitions: PartitionSelector::All("all".to_string()),
        start: ConsumeStart { kind: "earliest".to_string(), value: None },
        limit: 0,
        batch_size: None,
        idle_timeout_ms: None,
        max_preview_bytes: None,
    }
}

fn settings(limit: u32, batch_size: usize) -> SessionSettings {
    SessionSettings { limit, batch_size, idle_timeout_ms: 1000, max_preview_bytes: 16 }
}

fn message(text: &str) -> RawMessage {
    RawMessage {
        topic: "t".to_string(),
        partition: 0,
        offset: 1,
        timestamp: None,
        key: None,
        payload: Some(text.as_bytes().to_vec()),
        headers: vec![],
    }
}

fn invalid(m: &str) -> AppError {
    AppError::InvalidRequest(m.to_string())
}

#[test]
fn settings_are_clamped_and_defaulted() {
    let s = session_settings(&request());
    assert_eq!(s.limit, 1);
    assert_eq!(s.batch_size, 200);
    assert_eq!(s.idle_timeout_ms, 4000);
    assert_eq!(s.max_preview_bytes, 512 * 1024);
    let mut q = request();
    q.limit = 50_000;
    q.batch_size = Some(0);
    q.idle_timeout_ms = Some(10);
    q.max_preview_bytes = Some(8);
    let s = session_settings(&q);
    assert_eq!(s.limit, 10_000);
    assert_eq!(s.batch_size, 1);
    assert_eq!(s.idle_timeout_ms, 10);
    assert_eq!(s.max_preview_bytes, 8);
    q.batch_size = Some(5000);
    assert_eq!(session_settings(&q).batch_size, 1000);
}

#[test]
fn start_positions() {
    let start = |kind: &str, value: Option<i64>| ConsumeStart { kind: kind.to_string(), value };
    assert_eq!(plan_start(&start("earliest", None)), Ok(StartPosition::Earliest));
    assert_eq!(plan_start(&start("latest", Some(3))), Ok(StartPosition::Latest));
    assert_eq!(plan_start(&start("offset", Some(3))), Ok(StartPosition::Offset(3)));
    assert_eq!(
        plan_start(&start("offset", None)),
        Err(invalid("start.value is required for offset mode"))
    );
    assert_eq!(plan_start(&start("timestamp", Some(9))), Ok(StartPosition::Timestamp(9)));
    assert_eq!(
        plan_start(&start("timestamp", None)),
        Err(invalid("start.value is required for timestamp mode"))
    );
    assert_eq!(plan_start(&start("middle", None)), Err(invalid("Unsupported start type: middle")));
}

#[test]
fn partition_selection() {
    assert_eq!(
        choose_partitions(&PartitionSelector::List(vec![2, 0])),
        Ok(PartitionChoice::Listed(vec![2, 0]))
    );
    assert_eq!(
        choose_partitions(&PartitionSelector::All("all".to_string())),
        Ok(PartitionChoice::AllOfTopic)
    );
    assert_eq!(
        choose_partitions(&PartitionSelector::All("some".to_string())),
        Err(invalid("Invalid partitions selector: some"))
    );
    let topics = vec![TopicMeta {
        name: "t".to_string(),
        partitions: vec![
            PartitionMeta { id: 4, leader: 0, replicas: vec![], isr: vec![] },
            PartitionMeta { id: 7, leader: 0, replicas: vec![], isr: vec![] },
        ],
    }];
    assert_eq!(topic_partition_ids(&topics, "t"), Ok(vec![4, 7]));
    assert_eq!(topic_partition_ids(&topics, "u"), Err(invalid("Topic not found: u")));
}

#[test]
fn assignments_from_start_positions() {
    let a = assignments("t", &vec![0, 1], StartPosition::Latest);
    assert_eq!(a.len(), 2);
    assert_eq!(a[1].partition, 1);
    assert_eq!(a[1].offset, OffsetSpec::End);
    assert_eq!(a[0].topic, "t");
    let b = assignments("t", &vec![3], StartPosition::Timestamp(100));
    assert_eq!(b[0].offset, OffsetSpec::At(100));
    let found = vec![
        OffsetLookup { topic: "t".to_string(), partition: 0, offset: Some(5) },
        OffsetLookup { topic: "t".to_string(), partition: 1, offset: None },
        OffsetLookup { topic: "t".to_string(), partition: 2, offset: Some(-1) },
        OffsetLookup { topic: "t".to_string(), partition: 3, offset: Some(0) },
    ];
    let c = timestamp_assignments(&found);
    assert_eq!(c.len(), 2);
    assert_eq!((c[0].partition, c[0].offset), (0, OffsetSpec::At(5)));
    assert_eq!((c[1].partition, c[1].offset), (3, OffsetSpec::At(0)));
}

#[test]
fn session_consumer_settings() {
    assert_eq!(session_group_id("abcdefgh-1234"), "kafkalite-session-abcdefgh");
    let profile = ConnectionProfile {
        id: "p".to_string(),
        name: "n".to_string(),
        bootstrap_servers: vec!["h:1".to_string()],
        security_protocol: SecurityProtocol::Plaintext,
        sasl_mechanism: None,
        username: None,
        credential_ref: None,
        ssl_ca_path: None,
        ssl_certificate_path: None,
        ssl_key_path: None,
        client_id: "c".to_string(),
        request_timeout_ms: 10,
    };
    let config = session_consumer_config(&profile, &CredentialService::new(), "12345678-xyz");
    assert_eq!(config.get("group.id"), Some("kafkalite-session-12345678"));
    assert_eq!(config.get("enable.auto.commit"), Some("false"));
    assert_eq!(config.get("enable.partition.eof"), Some("true"));
    assert_eq!(config.get("bootstrap.servers"), Some("h:1"));
}

#[test]
fn idle_and_failed_events() {
    assert_eq!(
        finish_idle("s"),
        SessionEvent::Finished { session_id: "s".to_string(), reason: "idle".to_string() }
    );
    match session_failed("s", AppError::KafkaTimeout) {
        SessionEvent::Error { session_id, error } => {
            assert_eq!(session_id, "s");
            assert_eq!(error.code, "KAFKA_TIMEOUT");
            assert_eq!(error.operation_id.len(), 36);
            assert!(error.operation_id.chars().all(|c| c.is_ascii_digit() || ('a'..='f').contains(&c) || c == '-'));
        }
        other => panic!("unexpected event {:?}", other),
    }
}

#[test]
fn loop_reports_progress_and_batches_when_full() {
    let mut l = ConsumeLoop::new("s".to_string(), settings(10, 2), 0);
    assert_eq!(l.poll(10, false), None);
    let e1 = l.on_message(&message("a"), 10);
    assert_eq!(e1, vec![SessionEvent::Progress { session_id: "s".to_string(), count: 1 }]);
    assert_eq!(l.batch.len(), 1);
    let e2 = l.on_message(&message("b"), 20);
    assert_eq!(e2.len(), 2);
    assert_eq!(e2[0], SessionEvent::Progress { session_id: "s".to_string(), count: 2 });
    match &e2[1] {
        SessionEvent::Batch { session_id, messages } => {
            assert_eq!(session_id, "s");
            assert_eq!(messages.len(), 2);
            assert_eq!(messages[0].value_preview, "a");
            assert_eq!(messages[1].value_preview, "b");
        }
        other => panic!("unexpected event {:?}", other),
    }
    assert!(l.batch.is_empty());
    assert_eq!(l.last_flush, 20);
}

#[test]
fn loop_flushes_after_interval() {
    let mut l = ConsumeLoop::new("s".to_string(), settings(10, 100), 0);
    assert_eq!(l.on_message(&message("a"), 100).len(), 1);
    assert_eq!(l.on_timeout(120).len(), 0);
    let flushed = l.on_timeout(150);
    assert_eq!(flushed.len(), 1);
    assert!(l.batch.is_empty());
    assert_eq!(l.on_message(&message("b"), 400).len(), 2);
}

#[test]
fn loop_finishes_on_cancel_limit_and_idle() {
    let mut l = ConsumeLoop::new("s".to_string(), settings(1, 10), 0);
    l.on_message(&message("a"), 5);
    let done = l.poll(6, false).unwrap();
    assert_eq!(done.len(), 2);
    assert!(matches!(&done[0], SessionEvent::Batch { messages, .. } if messages.len() == 1));
    assert_eq!(done[1], SessionEvent::Finished { session_id: "s".to_string(), reason: "limit".to_string() });

    let mut c = ConsumeLoop::new("s".to_string(), settings(5, 10), 0);
    let done = c.poll(1, true).unwrap();
    assert_eq!(done, vec![SessionEvent::Finished { session_id: "s".to_string(), reason: "cancelled".to_string() }]);

    let mut i = ConsumeLoop::new("s".to_string(), settings(5, 10), 0);
    assert_eq!(i.poll(999, false), None);
    let done = i.poll(1000, false).unwrap();
    assert_eq!(done, vec![SessionEvent::Finished { session_id: "s".to_string(), reason: "idle".to_string() }]);
}

#[test]
fn loop_passes_over_partition_eof_and_fails_on_other_errors() {
    let mut l = ConsumeLoop::new("s".to_string(), settings(5, 10), 0);
    l.on_message(&message("a"), 1);
    let (events, failure) = l.on_receive_error("Local: Partition EOF".to_string());
    assert!(events.is_empty());
    assert!(failure.is_none());
    assert_eq!(l.batch.len(), 1);
    let (events, failure) = l.on_receive_error("Broker: down".to_string());
    assert_eq!(events.len(), 1);
    assert_eq!(failure, Some(AppError::KafkaConnection("Broker: down".to_string())));
    assert!(l.batch.is_empty());
}

#[test]
fn sessions_are_registered_stopped_and_finished() {
    let mut m: ConsumerSessionManager<u8> = ConsumerSessionManager::new();
    let a = m.start(1);
    let b = m.start(2);
    assert_eq!(a.len(), 36);
    assert!(a.chars().all(|c| c.is_ascii_digit() || ('a'..='f').contains(&c) || c == '-'));
    assert_eq!(m.stop(&a), Ok(&1));
    assert_eq!(m.stop(&b), Ok(&2));
    let mut all: Vec<u8> = m.stop_all().into_iter().copied().collect();
    all.sort();
    assert_eq!(all, vec![1, 2]);
    m.finish(&a);
    assert_eq!(m.stop(&a), Err(AppError::InvalidRequest(format!("Unknown session: {a}"))));
    assert_eq!(m.stop_all().len(), 1);
}

fn delivered(events: &[SessionEvent]) -> Vec<String> {
    let mut out = Vec::new();
    for e in events {
        if let SessionEvent::Batch { messages, .. } = e {
            out.extend(messages.iter().map(|m| m.value_preview.clone()));
        }
    }
    out
}

#[test]
fn every_message_is_delivered_once_in_order() {
    let mut l = ConsumeLoop::new("s".to_string(), settings(5, 2), 0);
    let mut events = Vec::new();
    events.extend(l.on_message(&message("a"), 1));
    events.extend(l.on_message(&message("b"), 2));
    events.extend(l.on_message(&message("c"), 3));
    events.extend(l.on_timeout(50));
    events.extend(l.on_message(&message("d"), 60));
    events.extend(l.poll(61, true).unwrap());
    assert_eq!(delivered(&events), vec!["a", "b", "c", "d"]);
    assert!(l.batch.is_empty());
}

#[test]
fn partitions_come_from_the_first_topic_of_the_name() {
    let part = |id: i32| PartitionMeta { id, leader: 0, replicas: vec![], isr: vec![] };
    let topics = vec![
        TopicMeta { name: "x".to_string(), partitions: vec![part(9)] },
        TopicMeta { name: "t".to_string(), partitions: vec![part(1), part(2)] },
        TopicMeta { name: "t".to_string(), partitions: vec![part(5)] },
    ];
    assert_eq!(topic_partition_ids(&topics, "t"), Ok(vec![1, 2]));
}
