//! Topic administration: what is shown of the cluster's topics, and the
//! checks and answers around creating topics and deleting topics or records.
use vstd::prelude::*;
use vstd::string::*;
use vstd::utf8::*;

use crate::error::AppError;
use crate::text::{
    chars_of, concat_text, copy_opt_string, decimal_int, i64_to_string, opt_text, same_text,
    spec_starts_with, starts_with,
};

verus! {

/// A topic as the cluster's metadata describes it.
#[derive(Debug, Clone, PartialEq, Eq)]
pub struct TopicMeta {
    pub name: String,
    pub partitions: Vec<PartitionMeta>,
}

/// A partition as the cluster's metadata describes it.
#[derive(Debug, Clone, PartialEq, Eq)]
pub struct PartitionMeta {
    pub id: i32,
    pub leader: i32,
    pub replicas: Vec<i32>,
    pub isr: Vec<i32>,
}

/// A topic in the topic list.
#[derive(Debug, Clone, PartialEq, Eq)]
pub struct TopicSummary {
    pub name: String,
    pub partition_count: usize,
    pub internal: bool,
}

/// A topic with its partitions.
#[derive(Debug, Clone, PartialEq, Eq)]
pub struct TopicDetail {
    pub name: String,
    pub partition_count: usize,
    pub internal: bool,
    pub partitions: Vec<PartitionInfo>,
}

/// A partition with its replicas and offsets.
#[derive(Debug, Clone, PartialEq, Eq)]
pub struct PartitionInfo {
    pub id: i32,
    pub leader: i32,
    pub replicas: Vec<i32>,
    pub isr: Vec<i32>,
    pub beginning_offset: Option<i64>,
    pub end_offset: Option<i64>,
}

/// A request to create a topic.
#[derive(Debug, Clone, PartialEq, Eq)]
pub struct CreateTopicRequest {
    pub connection_id: String,
    pub name: String,
    pub partitions: i32,
    pub replication_factor: i32,
    pub cleanup_policy: Option<String>,
    pub retention_ms: Option<i64>,
    pub retention_bytes: Option<i64>,
}

/// A partition and the offset before which its records are to go.
#[derive(Debug, Clone, Copy, PartialEq, Eq, Structural)]
pub struct DeleteRecordsTarget {
    pub partition: i32,
    pub before_offset: i64,
}

/// A request to delete the records before given offsets.
#[derive(Debug, Clone, PartialEq, Eq)]
pub struct DeleteRecordsRequest {
    pub connection_id: String,
    pub topic: String,
    pub targets: Vec<DeleteRecordsTarget>,
    pub confirmation_text: String,
}

/// The outcome of deleting records in one partition.
#[derive(Debug, Clone, PartialEq, Eq)]
pub struct DeleteRecordsResultItem {
    pub partition: i32,
    pub before_offset: i64,
    pub new_beginning_offset: Option<i64>,
    pub success: bool,
    pub error: Option<String>,
}

/// A topic to create, as the cluster is asked for it.
#[derive(Debug, Clone, PartialEq, Eq)]
pub struct NewTopicSpec {
    pub name: String,
    pub partitions: i32,
    pub replication_factor: i32,
    pub config: Vec<(String, String)>,
}

/// Internal topics are those whose name starts with two underscores.
pub open spec fn is_internal(name: Seq<char>) -> bool {
    spec_starts_with(name, "__"@)
}

/// `s` summarises the topic `t`.
pub open spec fn summarises(s: TopicSummary, t: TopicMeta) -> bool {
    s.name@ == t.name@ && s.partition_count == t.partitions@.len() && s.internal == is_internal(
        t.name@,
    )
}

/// The topic list: each topic with its partition count and whether it is
/// internal.
pub fn list_topics(topics: &Vec<TopicMeta>) -> (r: Vec<TopicSummary>)
    ensures
        r@.len() == topics@.len(),
        forall|i: int| 0 <= i < r@.len() ==> summarises(#[trigger] r@[i], topics@[i]),
{
    let mut out: Vec<TopicSummary> = Vec::new();
    let mut i: usize = 0;
    while i < topics.len()
        invariant
            i <= topics@.len(),
            out@.len() == i,
            forall|j: int| 0 <= j < i ==> summarises(#[trigger] out@[j], topics@[j]),
        decreases topics@.len() - i,
    {
        let t = &topics[i];
        out.push(
            TopicSummary {
                name: t.name.clone(),
                partition_count: t.partitions.len(),
                internal: starts_with(t.name.as_str(), "__"),
            },
        );
        i = i + 1;
    }
    out
}

/// The first topic of `topics` named `name`; an error when there is none.
pub fn find_topic(topics: &Vec<TopicMeta>, name: &str) -> (r: Result<usize, AppError>)
    ensures
        r matches Ok(i) ==> i < topics@.len() && topics@[i as int].name@ == name@ && forall|j: int|
            0 <= j < i ==> (#[trigger] topics@[j]).name@ != name@,
        r is Err <==> forall|j: int| 0 <= j < topics@.len() ==> (#[trigger] topics@[j]).name@ != name@,
        r matches Err(e) ==> (e matches AppError::InvalidRequest(m) && m@ == "Topic not found: "@
            + name@),
{
    let mut i: usize = 0;
    while i < topics.len()
        invariant
            i <= topics@.len(),
            forall|j: int| 0 <= j < i ==> (#[trigger] topics@[j]).name@ != name@,
        decreases topics@.len() - i,
    {
        if same_text(topics[i].name.as_str(), name) {
            return Ok(i);
        }
        i = i + 1;
    }
    Err(AppError::InvalidRequest(concat_text("Topic not found: ", name)))
}

/// `p` shows the partition `m` with the offsets `w` (low, high), if known.
pub open spec fn shows_partition(p: PartitionInfo, m: PartitionMeta, w: Option<(i64, i64)>) -> bool {
    &&& p.id == m.id
    &&& p.leader == m.leader
    &&& p.replicas@ == m.replicas@
    &&& p.isr@ == m.isr@
    &&& p.beginning_offset == match w {
        Some(x) => Some(x.0),
        None => None,
    }
    &&& p.end_offset == match w {
        Some(x) => Some(x.1),
        None => None,
    }
}

fn copy_ids(v: &Vec<i32>) -> (r: Vec<i32>)
    ensures
        r@ == v@,
{
    let mut out: Vec<i32> = Vec::new();
    let mut i: usize = 0;
    while i < v.len()
        invariant
            i <= v@.len(),
            out@ == v@.take(i as int),
        decreases v@.len() - i,
    {
        out.push(v[i]);
        assert(v@.take(i + 1) =~= v@.take(i as int).push(v@[i as int]));
        i = i + 1;
    }
    assert(v@.take(v@.len() as int) =~= v@);
    out
}

/// The detail of `topic`, given the offsets fetched for each of its
/// partitions (none where fetching failed).
pub fn describe_topic(topic: &TopicMeta, watermarks: &Vec<Option<(i64, i64)>>) -> (r: TopicDetail)
    requires
        watermarks@.len() == topic.partitions@.len(),
    ensures
        r.name@ == topic.name@,
        r.partition_count == topic.partitions@.len(),
        r.internal == is_internal(topic.name@),
        r.partitions@.len() == topic.partitions@.len(),
        forall|i: int|
            0 <= i < r.partitions@.len() ==> shows_partition(
                #[trigger] r.partitions@[i],
                topic.partitions@[i],
                watermarks@[i],
            ),
{
    let mut partitions: Vec<PartitionInfo> = Vec::new();
    let mut i: usize = 0;
    while i < topic.partitions.len()
        invariant
            i <= topic.partitions@.len(),
            watermarks@.len() == topic.partitions@.len(),
            partitions@.len() == i,
            forall|j: int|
                0 <= j < i ==> shows_partition(
                    #[trigger] partitions@[j],
                    topic.partitions@[j],
                    watermarks@[j],
                ),
        decreases topic.partitions@.len() - i,
    {
        let p = &topic.partitions[i];
        let (beginning_offset, end_offset) = match watermarks[i] {
            Some((lo, hi)) => (Some(lo), Some(hi)),
            None => (None, None),
        };
        partitions.push(
            PartitionInfo {
                id: p.id,
                leader: p.leader,
                replicas: copy_ids(&p.replicas),
                isr: copy_ids(&p.isr),
                beginning_offset,
                end_offset,
            },
        );
        i = i + 1;
    }
    TopicDetail {
        name: topic.name.clone(),
        partition_count: topic.partitions.len(),
        internal: starts_with(topic.name.as_str(), "__"),
        partitions,
    }
}

/// A character a topic name may hold.
pub open spec fn is_topic_char(c: char) -> bool {
    ('a' <= c && c <= 'z') || ('A' <= c && c <= 'Z') || ('0' <= c && c <= '9') || c == '.' || c
        == '_' || c == '-'
}

/// Why a topic name is refused, if it is: its UTF-8 length must be 1 to 249
/// bytes, and it may hold letters, digits, `.`, `_` and `-` only.
pub open spec fn topic_name_problem(name: Seq<char>) -> Option<Seq<char>> {
    if name.len() == 0 || encode_utf8(name).len() > 249 {
        Some("Topic name length must be 1-249"@)
    } else if exists|i: int| 0 <= i < name.len() && !is_topic_char(#[trigger] name[i]) {
        Some("Topic name contains invalid characters"@)
    } else {
        None
    }
}

/// Law: the characters a topic name may hold are exactly the ASCII letters
/// (U+0041 to U+005A and U+0061 to U+007A), the ASCII digits (U+0030 to
/// U+0039), `.` (U+002E), `_` (U+005F) and `-` (U+002D).
pub proof fn law_topic_chars(c: char)
    ensures
        is_topic_char(c) <==> (0x41 <= c as u32 <= 0x5A || 0x61 <= c as u32 <= 0x7A || 0x30
            <= c as u32 <= 0x39 || c as u32 == 0x2E || c as u32 == 0x5F || c as u32 == 0x2D),
{
}

/// Law: a name of 1 to 249 bytes made of ASCII letters, digits, `.`, `_` and
/// `-` is accepted; a name holding any other character is refused.
pub proof fn law_topic_names(name: Seq<char>)
    ensures
        (name.len() > 0 && encode_utf8(name).len() <= 249 && forall|i: int|
            0 <= i < name.len() ==> (0x41 <= #[trigger] name[i] as u32 <= 0x5A || 0x61 <= name[i] as u32
                <= 0x7A || 0x30 <= name[i] as u32 <= 0x39 || name[i] as u32 == 0x2E || name[i] as u32
                == 0x5F || name[i] as u32 == 0x2D)) ==> topic_name_problem(name) is None,
        (exists|i: int|
            0 <= i < name.len() && !(0x41 <= #[trigger] name[i] as u32 <= 0x5A || 0x61 <= name[i] as u32
                <= 0x7A || 0x30 <= name[i] as u32 <= 0x39 || name[i] as u32 == 0x2E || name[i] as u32
                == 0x5F || name[i] as u32 == 0x2D)) ==> topic_name_problem(name) is Some,
{
    assert forall|i: int| 0 <= i < name.len() implies (is_topic_char(#[trigger] name[i]) <==> (0x41
        <= name[i] as u32 <= 0x5A || 0x61 <= name[i] as u32 <= 0x7A || 0x30 <= name[i] as u32 <= 0x39
        || name[i] as u32 == 0x2E || name[i] as u32 == 0x5F || name[i] as u32 == 0x2D)) by {
        law_topic_chars(name[i]);
    }
}

/// Checks a topic name.
pub fn validate_topic_name(name: &str) -> (r: Result<(), AppError>)
    requires
        encode_utf8(name@).len() <= usize::MAX,
    ensures
        r is Ok <==> topic_name_problem(name@) is None,
        r matches Err(e) ==> (e matches AppError::InvalidRequest(m) && Some(m@)
            == topic_name_problem(name@)),
{
    if name.is_empty() || name.len() > 249 {
        return Err(AppError::InvalidRequest("Topic name length must be 1-249".to_owned()));
    }
    assert(name.spec_bytes() == encode_utf8(name@));
    assert(name@.len() > 0 && encode_utf8(name@).len() <= 249);
    let chars = chars_of(name);
    let mut i: usize = 0;
    while i < chars.len()
        invariant
            i <= chars@.len(),
            chars@ == name@,
            name@.len() > 0 && encode_utf8(name@).len() <= 249,
            forall|j: int| 0 <= j < i ==> is_topic_char(#[trigger] name@[j]),
        decreases chars@.len() - i,
    {
        let c = chars[i];
        let ok = ('a' <= c && c <= 'z') || ('A' <= c && c <= 'Z') || ('0' <= c && c <= '9') || c
            == '.' || c == '_' || c == '-';
        if !ok {
            assert(!is_topic_char(name@[i as int]));
            return Err(
                AppError::InvalidRequest("Topic name contains invalid characters".to_owned()),
            );
        }
        i = i + 1;
    }
    Ok(())
}

/// The topic settings a create request asks for, in this order: cleanup
/// policy, retention time, retention size, each where given.
pub open spec fn requested_config(request: CreateTopicRequest) -> Seq<(Seq<char>, Seq<char>)> {
    let a = match request.cleanup_policy {
        Some(p) => seq![("cleanup.policy"@, p@)],
        None => Seq::<(Seq<char>, Seq<char>)>::empty(),
    };
    let b = match request.retention_ms {
        Some(v) => seq![("retention.ms"@, decimal_int(v as int))],
        None => Seq::<(Seq<char>, Seq<char>)>::empty(),
    };
    let c = match request.retention_bytes {
        Some(v) => seq![("retention.bytes"@, decimal_int(v as int))],
        None => Seq::<(Seq<char>, Seq<char>)>::empty(),
    };
    a + b + c
}

/// The text of a list of settings.
pub open spec fn pairs_text(v: Seq<(String, String)>) -> Seq<(Seq<char>, Seq<char>)> {
    v.map_values(|p: (String, String)| (p.0@, p.1@))
}

/// Why a create request is refused, if it is.
pub open spec fn create_problem(request: CreateTopicRequest) -> Option<Seq<char>> {
    if topic_name_problem(request.name@) is Some {
        topic_name_problem(request.name@)
    } else if request.partitions <= 0 {
        Some("partitions must be greater than 0"@)
    } else if request.replication_factor <= 0 {
        Some("replicationFactor must be greater than 0"@)
    } else {
        None
    }
}

fn push_setting(config: &mut Vec<(String, String)>, key: &str, value: String)
    ensures
        pairs_text(final(config)@) == pairs_text(old(config)@).push((key@, value@)),
{
    config.push((key.to_owned(), value));
    assert(pairs_text(config@) =~= pairs_text(old(config)@).push((key@, value@)));
}

/// Checks a create request and gives the topic to ask the cluster for.
pub fn plan_create_topic(request: &CreateTopicRequest) -> (r: Result<NewTopicSpec, AppError>)
    requires
        encode_utf8(request.name@).len() <= usize::MAX,
    ensures
        r is Ok <==> create_problem(*request) is None,
        r matches Err(e) ==> (e matches AppError::InvalidRequest(m) && Some(m@) == create_problem(
            *request,
        )),
        r matches Ok(spec) ==> spec.name@ == request.name@ && spec.partitions == request.partitions
            && spec.replication_factor == request.replication_factor && pairs_text(spec.config@)
            == requested_config(*request),
{
    match validate_topic_name(request.name.as_str()) {
        Ok(()) => {},
        Err(e) => {
            return Err(e);
        },
    }
    if request.partitions <= 0 {
        return Err(AppError::InvalidRequest("partitions must be greater than 0".to_owned()));
    }
    if request.replication_factor <= 0 {
        return Err(
            AppError::InvalidRequest("replicationFactor must be greater than 0".to_owned()),
        );
    }
    let mut config: Vec<(String, String)> = Vec::new();
    assert(pairs_text(config@) =~= Seq::<(Seq<char>, Seq<char>)>::empty());
    if let Some(policy) = &request.cleanup_policy {
        push_setting(&mut config, "cleanup.policy", policy.clone());
    }
    if let Some(v) = request.retention_ms {
        push_setting(&mut config, "retention.ms", i64_to_string(v));
    }
    if let Some(v) = request.retention_bytes {
        push_setting(&mut config, "retention.bytes", i64_to_string(v));
    }
    assert(pairs_text(config@) =~= requested_config(*request));
    Ok(
        NewTopicSpec {
            name: request.name.clone(),
            partitions: request.partitions,
            replication_factor: request.replication_factor,
            config,
        },
    )
}

/// The answer to a create request, from the first result the cluster gave
/// (its error code's name when it failed; none when it gave no result).
pub fn create_topic_outcome(request: &CreateTopicRequest, first: Option<Result<(), String>>) -> (r:
    Result<TopicSummary, AppError>)
    ensures
        first matches Some(Ok(_)) ==> (r matches Ok(s) && s.name@ == request.name@
            && s.partition_count == request.partitions as usize && !s.internal),
        first matches Some(Err(code)) ==> (r matches Err(AppError::InvalidRequest(m)) && m@
            == "Failed to create topic: "@ + code@),
        first is None ==> (r matches Err(AppError::KafkaConnection(m)) && m@
            == "Empty create topic response"@),
{
    match first {
        Some(Ok(())) => Ok(
            TopicSummary {
                name: request.name.clone(),
                partition_count: request.partitions as usize,
                internal: false,
            },
        ),
        Some(Err(code)) => Err(
            AppError::InvalidRequest(concat_text("Failed to create topic: ", code.as_str())),
        ),
        None => Err(AppError::KafkaConnection("Empty create topic response".to_owned())),
    }
}

/// Checks that deleting `topic_name` was confirmed by typing its name.
pub fn check_delete_topic_confirmation(topic_name: &str, confirmation_text: &str) -> (r: Result<
    (),
    AppError,
>)
    ensures
        r is Ok <==> confirmation_text@ == topic_name@,
        r matches Err(e) ==> (e matches AppError::InvalidRequest(m) && m@
            == "DELETE_NOT_CONFIRMED: confirmation text does not match topic name"@),
{
    if !same_text(confirmation_text, topic_name) {
        return Err(
            AppError::InvalidRequest(
                "DELETE_NOT_CONFIRMED: confirmation text does not match topic name".to_owned(),
            ),
        );
    }
    Ok(())
}

/// The answer to a delete request, from the first result the cluster gave.
pub fn delete_topic_outcome(first: Option<Result<(), String>>) -> (r: Result<(), AppError>)
    ensures
        first matches Some(Ok(_)) ==> r is Ok,
        first matches Some(Err(code)) ==> (r matches Err(AppError::InvalidRequest(m)) && m@
            == "Failed to delete topic: "@ + code@),
        first is None ==> (r matches Err(AppError::KafkaConnection(m)) && m@
            == "Empty delete topic response"@),
{
    match first {
        Some(Ok(())) => Ok(()),
        Some(Err(code)) => Err(
            AppError::InvalidRequest(concat_text("Failed to delete topic: ", code.as_str())),
        ),
        None => Err(AppError::KafkaConnection("Empty delete topic response".to_owned())),
    }
}

/// Checks a request to delete records: it must be confirmed by the expected
/// text and name at least one partition.
pub fn check_delete_records_request(request: &DeleteRecordsRequest, expected_confirmation: &str) -> (r:
    Result<(), AppError>)
    ensures
        r is Ok <==> request.confirmation_text@ == expected_confirmation@
            && request.targets@.len() > 0,
        r matches Err(e) ==> (e matches AppError::InvalidRequest(m) && m@ == if request.confirmation_text@
            != expected_confirmation@ {
            "DELETE_NOT_CONFIRMED: confirmation text mismatch"@
        } else {
            "At least one partition target is required"@
        }),
{
    if !same_text(request.confirmation_text.as_str(), expected_confirmation) {
        return Err(
            AppError::InvalidRequest(
                "DELETE_NOT_CONFIRMED: confirmation text mismatch".to_owned(),
            ),
        );
    }
    if request.targets.len() == 0 {
        return Err(
            AppError::InvalidRequest("At least one partition target is required".to_owned()),
        );
    }
    Ok(())
}

/// The message refusing a target offset outside the partition's range.
pub open spec fn offset_outside_message(target: DeleteRecordsTarget, beginning: i64, end: i64) -> Seq<
    char,
> {
    "INVALID_OFFSET: partition "@ + decimal_int(target.partition as int) + " beforeOffset "@
        + decimal_int(target.before_offset as int) + " is outside ("@ + decimal_int(
        beginning as int,
    ) + ", "@ + decimal_int(end as int) + "]"@
}

/// Checks that the target offset lies in the partition's range
/// `(beginning, end]`.
pub fn check_target_offset(target: &DeleteRecordsTarget, beginning: i64, end: i64) -> (r: Result<
    (),
    AppError,
>)
    ensures
        r is Ok <==> beginning < target.before_offset <= end,
        r matches Err(e) ==> (e matches AppError::InvalidRequest(m) && m@ == offset_outside_message(
            *target,
            beginning,
            end,
        )),
{
    if target.before_offset <= beginning || target.before_offset > end {
        let mut m = "INVALID_OFFSET: partition ".to_owned();
        m.append(i64_to_string(target.partition as i64).as_str());
        m.append(" beforeOffset ");
        m.append(i64_to_string(target.before_offset).as_str());
        m.append(" is outside (");
        m.append(i64_to_string(beginning).as_str());
        m.append(", ");
        m.append(i64_to_string(end).as_str());
        m.append("]");
        return Err(AppError::InvalidRequest(m));
    }
    Ok(())
}

/// The outcome for one partition: the offset the cluster reports (none when
/// it is not a plain offset, shown as -1), its error if any, and the new
/// beginning offset fetched after a success.
pub fn delete_result_item(
    partition: i32,
    offset: Option<i64>,
    error: Option<String>,
    new_beginning: Option<i64>,
) -> (r: DeleteRecordsResultItem)
    ensures
        r.partition == partition,
        r.before_offset == match offset {
            Some(v) => v,
            None => -1i64,
        },
        r.success == error is None,
        r.new_beginning_offset == if error is None {
            new_beginning
        } else {
            None
        },
        opt_text(r.error) == opt_text(error),
{
    let success = error.is_none();
    DeleteRecordsResultItem {
        partition,
        before_offset: match offset {
            Some(v) => v,
            None => -1,
        },
        new_beginning_offset: if success {
            new_beginning
        } else {
            None
        },
        success,
        error,
    }
}

} // verus!
