//! Consume sessions: the settings and start position of a session, the
//! partitions it reads, and the decisions of its receive loop (when to batch,
//! report progress and finish), plus the table of running sessions.
use vstd::prelude::*;
use vstd::string::*;
use vstd::utf8::*;

use rdkafka::ClientConfig;

use crate::error::{ApiError, AppError};
use crate::ids::{is_uuid_text, new_uuid_string};
use crate::kafka::admin_service::{find_topic, TopicMeta};
use crate::kafka::config_builder::{
    build_client_config, client_config_entries, config_set, profile_settings, stored_password,
    ConnectionProfile,
};
use crate::kafka::message_decoder::{decode_message, shows_message, MessageDto, RawMessage};
use crate::security::credential::CredentialService;
use crate::text::{
    concat_text, contains, lowercased, same_text, spec_contains, to_lowercase, utf8_prefix,
    utf8_prefix_of, prefix_on_boundary,
};
use crate::text_map::TextMap;

verus! {

/// Where a session starts reading: a kind (`earliest`, `latest`, `offset`,
/// `timestamp`) and the offset or timestamp the last two need.
#[derive(Debug, Clone, PartialEq, Eq)]
pub struct ConsumeStart {
    pub kind: String,
    pub value: Option<i64>,
}

/// A request to consume records of a topic.
#[derive(Debug, Clone, PartialEq, Eq)]
pub struct ConsumeRequest {
    pub connection_id: String,
    pub topic: String,
    pub partitions: PartitionSelector,
    pub start: ConsumeStart,
    pub limit: u32,
    pub batch_size: Option<u32>,
    pub idle_timeout_ms: Option<u64>,
    pub max_preview_bytes: Option<usize>,
}

/// Which partitions to read: `All("all")`, or a list.
#[derive(Debug, Clone, PartialEq, Eq)]
pub enum PartitionSelector {
    All(String),
    List(Vec<i32>),
}

/// What a session reports as it runs.
#[derive(Debug, Clone, PartialEq, Eq)]
pub enum SessionEvent {
    Started { session_id: String },
    Batch { session_id: String, messages: Vec<MessageDto> },
    Progress { session_id: String, count: u32 },
    Finished { session_id: String, reason: String },
    Error { session_id: String, error: ApiError },
}

/// The bounds a session runs with.
#[derive(Debug, Clone, Copy, PartialEq, Eq, Structural)]
pub struct SessionSettings {
    pub limit: u32,
    pub batch_size: usize,
    pub idle_timeout_ms: u64,
    pub max_preview_bytes: usize,
}

/// `x` brought into `[lo, hi]`.
pub open spec fn clamp(x: int, lo: int, hi: int) -> int {
    if x < lo {
        lo
    } else if x > hi {
        hi
    } else {
        x
    }
}

fn clamp_u32(x: u32, lo: u32, hi: u32) -> (r: u32)
    requires
        lo <= hi,
    ensures
        r == clamp(x as int, lo as int, hi as int),
{
    if x < lo {
        lo
    } else if x > hi {
        hi
    } else {
        x
    }
}

/// The bounds of a session: a limit of 1 to 10000 records, batches of 1 to
/// 1000 (200 by default), 4000 ms of idleness by default, previews of 512 KiB
/// by default.
pub fn session_settings(request: &ConsumeRequest) -> (r: SessionSettings)
    ensures
        r.limit == clamp(request.limit as int, 1, 10000),
        r.batch_size == clamp(
            match request.batch_size {
                Some(b) => b as int,
                None => 200,
            },
            1,
            1000,
        ),
        r.idle_timeout_ms == match request.idle_timeout_ms {
            Some(t) => t,
            None => 4000,
        },
        r.max_preview_bytes == match request.max_preview_bytes {
            Some(m) => m,
            None => 524288,
        },
{
    let batch: u32 = match request.batch_size {
        Some(b) => b,
        None => 200,
    };
    SessionSettings {
        limit: clamp_u32(request.limit, 1, 10000),
        batch_size: clamp_u32(batch, 1, 1000) as usize,
        idle_timeout_ms: match request.idle_timeout_ms {
            Some(t) => t,
            None => 4000,
        },
        max_preview_bytes: match request.max_preview_bytes {
            Some(m) => m,
            None => 524288,
        },
    }
}

/// Where reading starts.
#[derive(Debug, Clone, Copy, PartialEq, Eq, Structural)]
pub enum StartPosition {
    Earliest,
    Latest,
    Offset(i64),
    Timestamp(i64),
}

/// The start position a start request names, or why it names none.
pub fn plan_start(start: &ConsumeStart) -> (r: Result<StartPosition, AppError>)
    ensures
        start.kind@ == "earliest"@ ==> r == Ok::<StartPosition, AppError>(StartPosition::Earliest),
        start.kind@ == "latest"@ ==> r == Ok::<StartPosition, AppError>(StartPosition::Latest),
        start.kind@ == "offset"@ ==> match start.value {
            Some(v) => r == Ok::<StartPosition, AppError>(StartPosition::Offset(v)),
            None => r matches Err(AppError::InvalidRequest(m)) && m@
                == "start.value is required for offset mode"@,
        },
        start.kind@ == "timestamp"@ ==> match start.value {
            Some(v) => r == Ok::<StartPosition, AppError>(StartPosition::Timestamp(v)),
            None => r matches Err(AppError::InvalidRequest(m)) && m@
                == "start.value is required for timestamp mode"@,
        },
        start.kind@ != "earliest"@ && start.kind@ != "latest"@ && start.kind@ != "offset"@
            && start.kind@ != "timestamp"@ ==> (r matches Err(AppError::InvalidRequest(m)) && m@
            == "Unsupported start type: "@ + start.kind@),
{
    let kind = start.kind.as_str();
    proof {
        reveal_strlit("earliest");
        reveal_strlit("latest");
        reveal_strlit("offset");
        reveal_strlit("timestamp");
        assert("earliest"@.len() != "latest"@.len());
        assert("earliest"@.len() != "offset"@.len());
        assert("earliest"@.len() != "timestamp"@.len());
        assert("latest"@[0] != "offset"@[0]);
        assert("latest"@.len() != "timestamp"@.len());
        assert("offset"@.len() != "timestamp"@.len());
    }
    if same_text(kind, "earliest") {
        Ok(StartPosition::Earliest)
    } else if same_text(kind, "latest") {
        Ok(StartPosition::Latest)
    } else if same_text(kind, "offset") {
        match start.value {
            Some(v) => Ok(StartPosition::Offset(v)),
            None => Err(
                AppError::InvalidRequest("start.value is required for offset mode".to_owned()),
            ),
        }
    } else if same_text(kind, "timestamp") {
        match start.value {
            Some(v) => Ok(StartPosition::Timestamp(v)),
            None => Err(
                AppError::InvalidRequest("start.value is required for timestamp mode".to_owned()),
            ),
        }
    } else {
        Err(AppError::InvalidRequest(concat_text("Unsupported start type: ", kind)))
    }
}

/// The partitions a selector names: a given list, or all of the topic's.
#[derive(Debug, Clone, PartialEq, Eq)]
pub enum PartitionChoice {
    Listed(Vec<i32>),
    AllOfTopic,
}

/// The partitions a selector names; an error for `All` with anything but
/// `"all"`.
pub fn choose_partitions(selector: &PartitionSelector) -> (r: Result<PartitionChoice, AppError>)
    ensures
        selector matches PartitionSelector::List(l) ==> (r matches Ok(PartitionChoice::Listed(v))
            && v@ == l@),
        selector matches PartitionSelector::All(s) ==> (s@ == "all"@ ==> r == Ok::<
            PartitionChoice,
            AppError,
        >(PartitionChoice::AllOfTopic)),
        selector matches PartitionSelector::All(s) ==> (s@ != "all"@ ==> (r matches Err(
            AppError::InvalidRequest(m),
        ) && m@ == "Invalid partitions selector: "@ + s@)),
{
    match selector {
        PartitionSelector::List(list) => {
            let mut v: Vec<i32> = Vec::new();
            let mut i: usize = 0;
            while i < list.len()
                invariant
                    i <= list@.len(),
                    v@ == list@.take(i as int),
                decreases list@.len() - i,
            {
                v.push(list[i]);
                assert(list@.take(i + 1) =~= list@.take(i as int).push(list@[i as int]));
                i = i + 1;
            }
            assert(list@.take(list@.len() as int) =~= list@);
            Ok(PartitionChoice::Listed(v))
        },
        PartitionSelector::All(value) => {
            if same_text(value.as_str(), "all") {
                Ok(PartitionChoice::AllOfTopic)
            } else {
                Err(AppError::InvalidRequest(concat_text("Invalid partitions selector: ", value.as_str())))
            }
        },
    }
}

/// The ids of the partitions of the first topic named `topic`; an error
/// when the metadata has no such topic.
pub fn topic_partition_ids(topics: &Vec<TopicMeta>, topic: &str) -> (r: Result<Vec<i32>, AppError>)
    ensures
        r matches Ok(ids) ==> exists|i: int|
            0 <= i < topics@.len() && (#[trigger] topics@[i]).name@ == topic@ && (forall|k: int|
                0 <= k < i ==> (#[trigger] topics@[k]).name@ != topic@) && ids@.len()
                == topics@[i].partitions@.len() && forall|j: int|
                0 <= j < ids@.len() ==> ids@[j] == topics@[i].partitions@[j].id,
        r is Err <==> forall|j: int| 0 <= j < topics@.len() ==> (#[trigger] topics@[j]).name@ != topic@,
        r matches Err(e) ==> (e matches AppError::InvalidRequest(m) && m@ == "Topic not found: "@
            + topic@),
{
    let i = match find_topic(topics, topic) {
        Ok(i) => i,
        Err(e) => {
            return Err(e);
        },
    };
    let parts = &topics[i].partitions;
    let mut ids: Vec<i32> = Vec::new();
    let mut k: usize = 0;
    while k < parts.len()
        invariant
            k <= parts@.len(),
            ids@.len() == k,
            forall|j: int| 0 <= j < k ==> ids@[j] == parts@[j].id,
        decreases parts@.len() - k,
    {
        ids.push(parts[k].id);
        k = k + 1;
    }
    Ok(ids)
}

/// An offset to read a partition from.
#[derive(Debug, Clone, Copy, PartialEq, Eq, Structural)]
pub enum OffsetSpec {
    Beginning,
    End,
    At(i64),
}

/// A partition and the offset it is read from.
#[derive(Debug, Clone, PartialEq, Eq)]
pub struct Assignment {
    pub topic: String,
    pub partition: i32,
    pub offset: OffsetSpec,
}

/// The offset a start position reads every partition from (for a timestamp,
/// the timestamp the offsets are looked up by).
pub open spec fn offset_for(position: StartPosition) -> OffsetSpec {
    match position {
        StartPosition::Earliest => OffsetSpec::Beginning,
        StartPosition::Latest => OffsetSpec::End,
        StartPosition::Offset(o) => OffsetSpec::At(o),
        StartPosition::Timestamp(t) => OffsetSpec::At(t),
    }
}

/// Law: the earliest start reads every partition from its first record, the
/// latest start from its end, and an offset start from that offset; earliest
/// and latest read from different places.
pub proof fn law_start_offsets(v: i64)
    ensures
        offset_for(StartPosition::Earliest) == OffsetSpec::Beginning,
        offset_for(StartPosition::Latest) == OffsetSpec::End,
        offset_for(StartPosition::Offset(v)) == OffsetSpec::At(v),
        offset_for(StartPosition::Earliest) != offset_for(StartPosition::Latest),
{
}

/// Every listed partition of `topic` with the offset `position` reads it
/// from.
pub fn assignments(topic: &str, partitions: &Vec<i32>, position: StartPosition) -> (r: Vec<
    Assignment,
>)
    ensures
        r@.len() == partitions@.len(),
        forall|i: int|
            0 <= i < r@.len() ==> (#[trigger] r@[i]).topic@ == topic@ && r@[i].partition
                == partitions@[i] && r@[i].offset == offset_for(position),
{
    let offset = match position {
        StartPosition::Earliest => OffsetSpec::Beginning,
        StartPosition::Latest => OffsetSpec::End,
        StartPosition::Offset(o) => OffsetSpec::At(o),
        StartPosition::Timestamp(t) => OffsetSpec::At(t),
    };
    let mut out: Vec<Assignment> = Vec::new();
    let mut i: usize = 0;
    while i < partitions.len()
        invariant
            i <= partitions@.len(),
            offset == offset_for(position),
            out@.len() == i,
            forall|j: int|
                0 <= j < i ==> (#[trigger] out@[j]).topic@ == topic@ && out@[j].partition
                    == partitions@[j] && out@[j].offset == offset,
        decreases partitions@.len() - i,
    {
        out.push(Assignment { topic: topic.to_owned(), partition: partitions[i], offset });
        i = i + 1;
    }
    out
}

/// An offset found for a timestamp: a plain offset, or none when the cluster
/// answered with another kind of offset.
#[derive(Debug, Clone, PartialEq, Eq)]
pub struct OffsetLookup {
    pub topic: String,
    pub partition: i32,
    pub offset: Option<i64>,
}

/// The lookups that give a place to read from: a plain offset that is not
/// negative.
pub open spec fn usable_lookups(found: Seq<OffsetLookup>) -> Seq<OffsetLookup>
    decreases found.len(),
{
    if found.len() == 0 {
        Seq::<OffsetLookup>::empty()
    } else {
        let rest = usable_lookups(found.drop_last());
        if found.last().offset matches Some(v) && v >= 0 {
            rest.push(found.last())
        } else {
            rest
        }
    }
}

/// `a` reads from where `l` found.
pub open spec fn reads_found(a: Assignment, l: OffsetLookup) -> bool {
    &&& a.topic@ == l.topic@
    &&& a.partition == l.partition
    &&& l.offset matches Some(v) && a.offset == OffsetSpec::At(v)
}

/// The partitions to read after looking offsets up by timestamp: those with
/// a plain offset that is not negative, in order.
pub fn timestamp_assignments(found: &Vec<OffsetLookup>) -> (r: Vec<Assignment>)
    ensures
        r@.len() == usable_lookups(found@).len(),
        forall|i: int| 0 <= i < r@.len() ==> reads_found(#[trigger] r@[i], usable_lookups(found@)[i]),
{
    let mut out: Vec<Assignment> = Vec::new();
    let mut i: usize = 0;
    while i < found.len()
        invariant
            i <= found@.len(),
            out@.len() == usable_lookups(found@.take(i as int)).len(),
            forall|j: int|
                0 <= j < out@.len() ==> reads_found(
                    #[trigger] out@[j],
                    usable_lookups(found@.take(i as int))[j],
                ),
        decreases found@.len() - i,
    {
        assert(found@.take(i + 1).drop_last() =~= found@.take(i as int));
        assert(found@.take(i + 1).last() == found@[i as int]);
        let l = &found[i];
        match l.offset {
            Some(v) => {
                if v >= 0 {
                    out.push(
                        Assignment {
                            topic: l.topic.clone(),
                            partition: l.partition,
                            offset: OffsetSpec::At(v),
                        },
                    );
                }
            },
            None => {},
        }
        i = i + 1;
    }
    assert(found@.take(found@.len() as int) =~= found@);
    out
}

/// The consumer group of a session: `kafkalite-session-` and the first eight
/// bytes of the session id.
pub fn session_group_id(session_id: &str) -> (r: String)
    requires
        8 <= encode_utf8(session_id@).len() <= usize::MAX,
        prefix_on_boundary(session_id@, 8),
    ensures
        r@ == "kafkalite-session-"@ + utf8_prefix(session_id@, 8),
{
    concat_text("kafkalite-session-", utf8_prefix_of(session_id, 8))
}

/// The client configuration of a session's consumer: the profile's settings,
/// the session's consumer group, no automatic commits, and end-of-partition
/// notices.
pub fn session_consumer_config(
    profile: &ConnectionProfile,
    credentials: &CredentialService,
    session_id: &str,
) -> (r: ClientConfig)
    requires
        8 <= encode_utf8(session_id@).len() <= usize::MAX,
        prefix_on_boundary(session_id@, 8),
    ensures
        client_config_entries(r) == profile_settings(
            *profile,
            stored_password(credentials@, profile.credential_ref),
        ).insert("group.id"@, "kafkalite-session-"@ + utf8_prefix(session_id@, 8)).insert(
            "enable.auto.commit"@,
            "false"@,
        ).insert("enable.partition.eof"@, "true"@),
{
    let mut config = build_client_config(profile, credentials);
    let group = session_group_id(session_id);
    config_set(&mut config, "group.id", group.as_str());
    config_set(&mut config, "enable.auto.commit", "false");
    config_set(&mut config, "enable.partition.eof", "true");
    config
}

/// The event ending a session that has nothing to read.
pub fn finish_idle(session_id: &str) -> (r: SessionEvent)
    ensures
        is_finished(r, session_id@, "idle"@),
{
    SessionEvent::Finished { session_id: session_id.to_owned(), reason: "idle".to_owned() }
}

/// The event reporting that a session failed with `error`, under a fresh
/// operation id.
pub fn session_failed(session_id: &str, error: AppError) -> (r: SessionEvent)
    ensures
        r matches SessionEvent::Error { session_id: sid, error: a } && sid@ == session_id@
            && exists|op: Seq<char>| is_uuid_text(op) && crate::error::reports(a, error, op),
{
    SessionEvent::Error {
        session_id: session_id.to_owned(),
        error: ApiError::from_app_error(error, None),
    }
}

/// `e` delivers the messages `msgs` of session `sid`.
pub open spec fn is_batch(e: SessionEvent, sid: Seq<char>, msgs: Seq<MessageDto>) -> bool {
    e matches SessionEvent::Batch { session_id, messages } && session_id@ == sid && messages@ == msgs
}

/// `e` reports that session `sid` has received `count` messages.
pub open spec fn is_progress(e: SessionEvent, sid: Seq<char>, count: u32) -> bool {
    e matches SessionEvent::Progress { session_id, count: c } && session_id@ == sid && c == count
}

/// `e` reports that session `sid` ended for `reason`.
pub open spec fn is_finished(e: SessionEvent, sid: Seq<char>, reason: Seq<char>) -> bool {
    e matches SessionEvent::Finished { session_id, reason: r } && session_id@ == sid && r@ == reason
}

/// `evs` deliver what is pending: nothing when nothing is, else one batch.
pub open spec fn delivers(evs: Seq<SessionEvent>, sid: Seq<char>, pending: Seq<MessageDto>) -> bool {
    if pending.len() == 0 {
        evs.len() == 0
    } else {
        evs.len() == 1 && is_batch(evs[0], sid, pending)
    }
}

/// The messages that the batch events among `evs` deliver, in order.
pub open spec fn delivered_messages(evs: Seq<SessionEvent>) -> Seq<MessageDto>
    decreases evs.len(),
{
    if evs.len() == 0 {
        Seq::<MessageDto>::empty()
    } else {
        delivered_messages(evs.drop_last()) + match evs.last() {
            SessionEvent::Batch { messages, .. } => messages@,
            _ => Seq::<MessageDto>::empty(),
        }
    }
}

/// Events that deliver what is pending deliver exactly those messages.
pub proof fn lemma_delivers_pending(evs: Seq<SessionEvent>, sid: Seq<char>, pending: Seq<MessageDto>)
    requires
        delivers(evs, sid, pending),
    ensures
        delivered_messages(evs) == pending,
{
    if pending.len() > 0 {
        assert(evs.drop_last() =~= Seq::<SessionEvent>::empty());
        assert(delivered_messages(evs.drop_last()) =~= Seq::<MessageDto>::empty());
        assert(delivered_messages(evs) =~= pending);
    } else {
        assert(delivered_messages(evs) =~= pending);
    }
}

/// One more event that is no batch delivers no more messages.
pub proof fn lemma_delivered_push_other(evs: Seq<SessionEvent>, e: SessionEvent)
    requires
        !(e is Batch),
    ensures
        delivered_messages(evs.push(e)) == delivered_messages(evs),
{
    assert(evs.push(e).drop_last() =~= evs);
    assert(delivered_messages(evs.push(e)) =~= delivered_messages(evs));
}

/// The time from `since` to `now`, none when the clock went back.
pub open spec fn elapsed(now: u64, since: u64) -> nat {
    if now >= since {
        (now - since) as nat
    } else {
        0
    }
}

/// Pending messages are delivered at least this often while they arrive.
pub open spec fn flush_interval_ms() -> nat {
    150
}

/// The state of a session's receive loop. Times are in milliseconds on a
/// clock that the caller reads.
#[derive(Debug, Clone, PartialEq, Eq)]
pub struct ConsumeLoop {
    pub session_id: String,
    pub settings: SessionSettings,
    pub batch: Vec<MessageDto>,
    pub count: u32,
    pub last_message_at: u64,
    pub last_flush: u64,
}

/// Why the loop stops before the next receive, if it does: cancellation
/// first, then the limit, then idleness.
pub open spec fn stop_reason(l: ConsumeLoop, now: u64, cancelled: bool) -> Option<Seq<char>> {
    if cancelled {
        Some("cancelled"@)
    } else if l.count >= l.settings.limit {
        Some("limit"@)
    } else if elapsed(now, l.last_message_at) >= l.settings.idle_timeout_ms {
        Some("idle"@)
    } else {
        None
    }
}

/// `b` is `a` with nothing pending.
pub open spec fn emptied(b: ConsumeLoop, a: ConsumeLoop) -> bool {
    &&& b.session_id == a.session_id
    &&& b.settings == a.settings
    &&& b.batch@.len() == 0
    &&& b.count == a.count
    &&& b.last_message_at == a.last_message_at
    &&& b.last_flush == a.last_flush
}

impl ConsumeLoop {
    /// The loop's bounds hold: at least one message per batch, fewer pending
    /// messages than a batch holds, and no more messages than the limit.
    pub open spec fn wf(&self) -> bool {
        &&& 1 <= self.settings.batch_size
        &&& self.batch@.len() < self.settings.batch_size
        &&& self.count <= self.settings.limit
    }

    /// A loop that has received nothing, started at `now_ms`.
    pub fn new(session_id: String, settings: SessionSettings, now_ms: u64) -> (r: Self)
        requires
            1 <= settings.batch_size,
        ensures
            r.wf(),
            r.session_id == session_id,
            r.settings == settings,
            r.batch@.len() == 0,
            r.count == 0,
            r.last_message_at == now_ms,
            r.last_flush == now_ms,
    {
        ConsumeLoop {
            session_id,
            settings,
            batch: Vec::new(),
            count: 0,
            last_message_at: now_ms,
            last_flush: now_ms,
        }
    }

    /// Takes what is pending, as a batch event when anything is.
    pub fn flush_batch(&mut self) -> (r: Option<SessionEvent>)
        ensures
            old(self).batch@.len() == 0 ==> r is None && *final(self) == *old(self),
            old(self).batch@.len() > 0 ==> (r matches Some(e) && is_batch(
                e,
                old(self).session_id@,
                old(self).batch@,
            )),
            emptied(*final(self), *old(self)),
    {
        if self.batch.len() == 0 {
            return None;
        }
        let mut messages: Vec<MessageDto> = Vec::new();
        std::mem::swap(&mut messages, &mut self.batch);
        Some(SessionEvent::Batch { session_id: self.session_id.clone(), messages })
    }

    fn flush_into(&mut self, events: &mut Vec<SessionEvent>)
        ensures
            emptied(*final(self), *old(self)),
            delivers(final(events)@.skip(old(events)@.len() as int), old(self).session_id@, old(self).batch@),
            final(events)@.take(old(events)@.len() as int) == old(events)@,
            final(events)@.len() == old(events)@.len() + if old(self).batch@.len() > 0 {
                1int
            } else {
                0int
            },
    {
        let ghost before = events@;
        match self.flush_batch() {
            Some(e) => {
                events.push(e);
                assert(events@.skip(before.len() as int) =~= seq![e]);
            },
            None => {
                assert(events@.skip(before.len() as int) =~= Seq::<SessionEvent>::empty());
            },
        }
        assert(events@.take(before.len() as int) =~= before);
    }

    /// Decides, before the next receive at `now_ms`, whether the session
    /// ends; when it does, the events delivering what is pending and the
    /// finish, with its reason.
    pub fn poll(&mut self, now_ms: u64, cancelled: bool) -> (r: Option<Vec<SessionEvent>>)
        requires
            old(self).wf(),
        ensures
            final(self).wf(),
            r is Some <==> stop_reason(*old(self), now_ms, cancelled) is Some,
            r is None ==> *final(self) == *old(self) && old(self).count < old(self).settings.limit,
            r matches Some(evs) ==> ({
                &&& evs@.len() >= 1
                &&& delivers(evs@.drop_last(), old(self).session_id@, old(self).batch@)
                &&& is_finished(
                    evs@.last(),
                    old(self).session_id@,
                    stop_reason(*old(self), now_ms, cancelled)->0,
                )
                &&& emptied(*final(self), *old(self))
            }),
            r matches Some(evs) ==> delivered_messages(evs@) == old(self).batch@,
    {
        let reason = if cancelled {
            "cancelled"
        } else if self.count >= self.settings.limit {
            "limit"
        } else if (if now_ms >= self.last_message_at {
            now_ms - self.last_message_at
        } else {
            0
        }) >= self.settings.idle_timeout_ms {
            "idle"
        } else {
            return None;
        };
        let mut events: Vec<SessionEvent> = Vec::new();
        self.flush_into(&mut events);
        let ghost flushed = events@;
        events.push(
            SessionEvent::Finished {
                session_id: self.session_id.clone(),
                reason: reason.to_owned(),
            },
        );
        assert(events@.drop_last() =~= flushed);
        assert(flushed.skip(0) =~= flushed);
        proof {
            lemma_delivers_pending(flushed, old(self).session_id@, old(self).batch@);
            lemma_delivered_push_other(flushed, events@.last());
            assert(flushed.push(events@.last()) =~= events@);
        }
        Some(events)
    }

    /// Takes a received message at `now_ms`: it becomes pending, progress is
    /// reported, and the pending messages are delivered when a batch is full
    /// or the last delivery is 150 ms old.
    pub fn on_message(&mut self, message: &RawMessage, now_ms: u64) -> (r: Vec<SessionEvent>)
        requires
            old(self).wf(),
            old(self).count < old(self).settings.limit,
        ensures
            final(self).wf(),
            final(self).session_id == old(self).session_id,
            final(self).settings == old(self).settings,
            final(self).count == old(self).count + 1,
            final(self).last_message_at == now_ms,
            is_progress(r@[0], old(self).session_id@, (old(self).count + 1) as u32),
            exists|d: MessageDto|
                shows_message(d, *message, old(self).settings.max_preview_bytes as nat) && ({
                    let full = old(self).batch@.push(d);
                    &&& delivered_messages(r@) + final(self).batch@ == full
                    &&& if full.len() >= old(self).settings.batch_size || elapsed(
                        now_ms,
                        old(self).last_flush,
                    ) >= flush_interval_ms() {
                        &&& r@.len() == 2
                        &&& is_batch(r@[1], old(self).session_id@, full)
                        &&& final(self).batch@.len() == 0
                        &&& final(self).last_flush == now_ms
                    } else {
                        &&& r@.len() == 1
                        &&& final(self).batch@ == full
                        &&& final(self).last_flush == old(self).last_flush
                    }
                }),
    {
        let dto = decode_message(message, self.settings.max_preview_bytes);
        let ghost d = dto;
        self.batch.push(dto);
        self.count = self.count + 1;
        self.last_message_at = now_ms;
        let mut events: Vec<SessionEvent> = Vec::new();
        events.push(
            SessionEvent::Progress { session_id: self.session_id.clone(), count: self.count },
        );
        proof {
            lemma_delivered_push_other(Seq::<SessionEvent>::empty(), events@[0]);
            assert(Seq::<SessionEvent>::empty().push(events@[0]) =~= events@);
            assert(delivered_messages(Seq::<SessionEvent>::empty()) =~= Seq::<MessageDto>::empty());
        }
        let since_flush: u64 = if now_ms >= self.last_flush {
            now_ms - self.last_flush
        } else {
            0
        };
        if self.batch.len() >= self.settings.batch_size || since_flush >= 150 {
            let ghost before = events@;
            self.flush_into(&mut events);
            self.last_flush = now_ms;
            proof {
                assert(events@.take(1) == before);
                assert(events@[0] == before[0]);
                assert(events@.skip(1).len() == 1);
                assert(events@[1] == events@.skip(1)[0]);
                assert(events@.drop_last() =~= before);
                assert(delivered_messages(events@) =~= delivered_messages(before) + old(self).batch@.push(d));
            }
        }
        assert(delivered_messages(events@) + self.batch@ =~= old(self).batch@.push(d));
        events
    }

    /// Takes a receive error: an end-of-partition notice is passed over;
    /// any other error ends the session after what is pending is delivered.
    pub fn on_receive_error(&mut self, error: String) -> (r: (Vec<SessionEvent>, Option<AppError>))
        requires
            old(self).wf(),
        ensures
            final(self).wf(),
            spec_contains(lowercased(error@), "partition eof"@) ==> r.0@.len() == 0 && r.1 is None
                && *final(self) == *old(self),
            !spec_contains(lowercased(error@), "partition eof"@) ==> ({
                &&& delivers(r.0@, old(self).session_id@, old(self).batch@)
                &&& r.1 matches Some(AppError::KafkaConnection(m)) && m@ == error@
                &&& emptied(*final(self), *old(self))
            }),
            delivered_messages(r.0@) + final(self).batch@ == old(self).batch@,
    {
        let lower = to_lowercase(error.as_str());
        if contains(lower.as_str(), "partition eof") {
            let none: Vec<SessionEvent> = Vec::new();
            assert(delivered_messages(none@) + self.batch@ =~= self.batch@);
            return (none, None);
        }
        let mut events: Vec<SessionEvent> = Vec::new();
        self.flush_into(&mut events);
        assert(events@.skip(0) =~= events@);
        proof {
            lemma_delivers_pending(events@, old(self).session_id@, old(self).batch@);
            assert(delivered_messages(events@) + self.batch@ =~= old(self).batch@);
        }
        (events, Some(AppError::KafkaConnection(error)))
    }

    /// Takes a receive that timed out at `now_ms`: pending messages are
    /// delivered when the last delivery is 150 ms old.
    pub fn on_timeout(&mut self, now_ms: u64) -> (r: Vec<SessionEvent>)
        requires
            old(self).wf(),
        ensures
            final(self).wf(),
            old(self).batch@.len() > 0 && elapsed(now_ms, old(self).last_flush)
                >= flush_interval_ms() ==> ({
                &&& r@.len() == 1
                &&& is_batch(r@[0], old(self).session_id@, old(self).batch@)
                &&& final(self).batch@.len() == 0
                &&& final(self).last_flush == now_ms
                &&& final(self).session_id == old(self).session_id
                &&& final(self).settings == old(self).settings
                &&& final(self).count == old(self).count
                &&& final(self).last_message_at == old(self).last_message_at
            }),
            !(old(self).batch@.len() > 0 && elapsed(now_ms, old(self).last_flush)
                >= flush_interval_ms()) ==> r@.len() == 0 && *final(self) == *old(self),
            delivered_messages(r@) + final(self).batch@ == old(self).batch@,
    {
        let since_flush: u64 = if now_ms >= self.last_flush {
            now_ms - self.last_flush
        } else {
            0
        };
        let mut events: Vec<SessionEvent> = Vec::new();
        if self.batch.len() > 0 && since_flush >= 150 {
            self.flush_into(&mut events);
            self.last_flush = now_ms;
            assert(events@.skip(0) =~= events@);
            proof {
                lemma_delivers_pending(events@, old(self).session_id@, old(self).batch@);
            }
        }
        assert(delivered_messages(events@) + self.batch@ =~= old(self).batch@);
        events
    }
}

/// Law: a delivered batch never holds more messages than the batch size,
/// and a session never counts more messages than its limit: a well-formed
/// loop that takes one more message (which it may only while under its
/// limit) delivers at most a batch's worth and stays within the limit.
pub proof fn law_batches_and_count_bounded(l: ConsumeLoop, d: MessageDto)
    requires
        l.wf(),
        l.count < l.settings.limit,
    ensures
        l.batch@.push(d).len() <= l.settings.batch_size,
        l.count + 1 <= l.settings.limit,
{
}

/// The running sessions, each with the handle the caller stops it through.
pub struct ConsumerSessionManager<H> {
    sessions: TextMap<H>,
}

impl<H> View for ConsumerSessionManager<H> {
    type V = Map<Seq<char>, H>;

    closed spec fn view(&self) -> Map<Seq<char>, H> {
        self.sessions@
    }
}

impl<H> ConsumerSessionManager<H> {
    /// No running session.
    pub fn new() -> (r: Self)
        ensures
            r@ == Map::<Seq<char>, H>::empty(),
    {
        ConsumerSessionManager { sessions: TextMap::new() }
    }

    /// Registers a new session under a fresh random id and returns the id.
    pub fn start(&mut self, handle: H) -> (r: String)
        ensures
            is_uuid_text(r@),
            final(self)@ == old(self)@.insert(r@, handle),
    {
        let session_id = new_uuid_string();
        self.sessions.insert(session_id.clone(), handle);
        session_id
    }

    /// The handle of the session to stop; an error when no such session runs.
    pub fn stop(&self, session_id: &str) -> (r: Result<&H, AppError>)
        ensures
            self@.dom().contains(session_id@) ==> (r matches Ok(h) && *h == self@[session_id@]),
            !self@.dom().contains(session_id@) ==> (r matches Err(AppError::InvalidRequest(m)) && m@
                == "Unknown session: "@ + session_id@),
    {
        match self.sessions.get(session_id) {
            Some(h) => Ok(h),
            None => Err(AppError::InvalidRequest(concat_text("Unknown session: ", session_id))),
        }
    }

    /// The handles of all running sessions, one per session, to stop them
    /// all.
    pub fn stop_all(&self) -> (r: Vec<&H>)
        ensures
            r@.len() == self@.dom().len(),
            exists|ids: Seq<Seq<char>>|
                {
                    &&& ids.len() == r@.len()
                    &&& ids.no_duplicates()
                    &&& ids.to_set() == self@.dom()
                    &&& forall|i: int| 0 <= i < r@.len() ==> *r@[i] == self@[#[trigger] ids[i]]
                },
    {
        self.sessions.values()
    }

    /// Forgets a session that has ended.
    pub fn finish(&mut self, session_id: &str)
        ensures
            final(self)@ == old(self)@.remove(session_id@),
    {
        let _ = self.sessions.remove(session_id);
    }
}

} // verus!
