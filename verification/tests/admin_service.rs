use kafkalite::error::AppError;
use kafkalite::kafka::admin_service::{
    check_delete_records_request, check_delete_topic_confirmation, check_target_offset,
    create_topic_outcome, delete_result_item, delete_topic_outcome, describe_topic, find_topic,
    list_topics, plan_create_topic, validate_topic_name, CreateTopicRequest, DeleteRecordsRequest,
    DeleteRecordsTarget, PartitionMeta, TopicMeta,
};

fn topics() -> Vec<TopicMeta> {
    vec![
        TopicMeta {
            name: "orders".to_string(),
            partitions: vec![
                PartitionMeta { id: 0, leader: 1, replicas: vec![1, 2], isr: vec![1] },
                PartitionMeta { id: 1, leader: 2, replicas: vec![2], isr: vec![2] },
            ],
        },
        TopicMeta { name: "__consumer_offsets".to_string(), partitions: vec![] },
    ]
}

fn create_request() -> CreateTopicRequest {
    CreateTopicRequest {
        connection_id: "c".to_string(),
        name: "events.v1".to_string(),
        partitions: 3,
        replication_factor: 1,
        cleanup_policy: Some("compact".to_string()),
        retention_ms: Some(-1),
        retention_bytes: None,
    }
}

fn invalid(m: &str) -> AppError {
    AppError::InvalidRequest(m.to_string())
}

#[test]
fn lists_topics_with_internal_flag() {
    let list = list_topics(&topics());
    assert_eq!(list.len(), 2);
    assert_eq!(list[0].name, "orders");
    assert_eq!(list[0].partition_count, 2);
    assert!(!list[0].internal);
    assert!(list[1].internal);
}

#[test]
fn finds_topics_by_name() {
    assert_eq!(find_topic(&topics(), "orders"), Ok(0));
    assert_eq!(find_topic(&topics(), "missing"), Err(invalid("Topic not found: missing")));
}

#[test]
fn describes_a_topic() {
    let t = &topics()[0];
    let detail = describe_topic(t, &vec![Some((5, 9)), None]);
    assert_eq!(detail.name, "orders");
    assert_eq!(detail.partition_count, 2);
    assert!(!detail.internal);
    assert_eq!(detail.partitions[0].replicas, vec![1, 2]);
    assert_eq!(detail.partitions[0].isr, vec![1]);
    assert_eq!(detail.partitions[0].beginning_offset, Some(5));
    assert_eq!(detail.partitions[0].end_offset, Some(9));
    assert_eq!(detail.partitions[1].beginning_offset, None);
    assert_eq!(detail.partitions[1].leader, 2);
}

#[test]
fn validates_topic_names() {
    assert_eq!(validate_topic_name("a-b_c.d"), Ok(()));
    assert_eq!(validate_topic_name(""), Err(invalid("Topic name length must be 1-249")));
    assert_eq!(
        validate_topic_name(&"x".repeat(250)),
        Err(invalid("Topic name length must be 1-249"))
    );
    assert_eq!(validate_topic_name(&"x".repeat(249)), Ok(()));
    assert_eq!(
        validate_topic_name("bad name"),
        Err(invalid("Topic name contains invalid characters"))
    );
    assert_eq!(
        validate_topic_name(&"é".repeat(125)),
        Err(invalid("Topic name length must be 1-249"))
    );
}

#[test]
fn plans_topic_creation() {
    let spec = plan_create_topic(&create_request()).unwrap();
    assert_eq!(spec.name, "events.v1");
    assert_eq!(spec.partitions, 3);
    assert_eq!(
        spec.config,
        vec![
            ("cleanup.policy".to_string(), "compact".to_string()),
            ("retention.ms".to_string(), "-1".to_string())
        ]
    );
    let mut q = create_request();
    q.partitions = 0;
    assert_eq!(plan_create_topic(&q), Err(invalid("partitions must be greater than 0")));
    let mut q = create_request();
    q.replication_factor = -2;
    assert_eq!(plan_create_topic(&q), Err(invalid("replicationFactor must be greater than 0")));
    let mut q = create_request();
    q.name = "no/slash".to_string();
    assert_eq!(plan_create_topic(&q), Err(invalid("Topic name contains invalid characters")));
}

#[test]
fn answers_topic_creation() {
    let q = create_request();
    let s = create_topic_outcome(&q, Some(Ok(()))).unwrap();
    assert_eq!(s.name, "events.v1");
    assert_eq!(s.partition_count, 3);
    assert!(!s.internal);
    assert_eq!(
        create_topic_outcome(&q, Some(Err("TopicAlreadyExists".to_string()))),
        Err(invalid("Failed to create topic: TopicAlreadyExists"))
    );
    assert_eq!(
        create_topic_outcome(&q, None),
        Err(AppError::KafkaConnection("Empty create topic response".to_string()))
    );
}

#[test]
fn topic_deletion_needs_confirmation() {
    assert_eq!(check_delete_topic_confirmation("t", "t"), Ok(()));
    assert_eq!(
        check_delete_topic_confirmation("t", "T"),
        Err(invalid("DELETE_NOT_CONFIRMED: confirmation text does not match topic name"))
    );
    assert_eq!(delete_topic_outcome(Some(Ok(()))), Ok(()));
    assert_eq!(
        delete_topic_outcome(Some(Err("UnknownTopic".to_string()))),
        Err(invalid("Failed to delete topic: UnknownTopic"))
    );
    assert_eq!(
        delete_topic_outcome(None),
        Err(AppError::KafkaConnection("Empty delete topic response".to_string()))
    );
}

#[test]
fn record_deletion_checks() {
    let mut q = DeleteRecordsRequest {
        connection_id: "c".to_string(),
        topic: "t".to_string(),
        targets: vec![DeleteRecordsTarget { partition: 0, before_offset: 5 }],
        confirmation_text: "x".to_string(),
    };
    assert_eq!(check_delete_records_request(&q, "x"), Ok(()));
    assert_eq!(
        check_delete_records_request(&q, "y"),
        Err(invalid("DELETE_NOT_CONFIRMED: confirmation text mismatch"))
    );
    q.targets.clear();
    assert_eq!(
        check_delete_records_request(&q, "x"),
        Err(invalid("At least one partition target is required"))
    );
}

#[test]
fn target_offsets_must_lie_in_range() {
    let t = DeleteRecordsTarget { partition: 2, before_offset: 10 };
    assert_eq!(check_target_offset(&t, 3, 10), Ok(()));
    assert_eq!(
        check_target_offset(&t, 10, 20),
        Err(invalid("INVALID_OFFSET: partition 2 beforeOffset 10 is outside (10, 20]"))
    );
    assert_eq!(
        check_target_offset(&t, -1, 9),
        Err(invalid("INVALID_OFFSET: partition 2 beforeOffset 10 is outside (-1, 9]"))
    );
}

#[test]
fn deletion_result_items() {
    let ok = delete_result_item(1, Some(7), None, Some(7));
    assert!(ok.success);
    assert_eq!(ok.before_offset, 7);
    assert_eq!(ok.new_beginning_offset, Some(7));
    let failed = delete_result_item(1, None, Some("boom".to_string()), Some(3));
    assert!(!failed.success);
    assert_eq!(failed.before_offset, -1);
    assert_eq!(failed.new_beginning_offset, None);
    assert_eq!(failed.error, Some("boom".to_string()));
}
