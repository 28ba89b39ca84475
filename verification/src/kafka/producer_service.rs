//! Tombstones: the check on a tombstone request and the answer to it.
use vstd::prelude::*;
use vstd::string::*;

use crate::error::AppError;

verus! {

/// A request to send a tombstone (a record with a key and no value).
#[derive(Debug, Clone, PartialEq, Eq)]
pub struct ProduceTombstoneRequest {
    pub connection_id: String,
    pub topic: String,
    pub key: String,
    pub partition: Option<i32>,
}

/// Where a record was written.
#[derive(Debug, Clone, PartialEq, Eq)]
pub struct ProduceResult {
    pub topic: String,
    pub partition: i32,
    pub offset: i64,
}

/// Checks a tombstone request: its key must not be empty.
pub fn check_tombstone_request(request: &ProduceTombstoneRequest) -> (r: Result<(), AppError>)
    ensures
        r is Ok <==> request.key@.len() > 0,
        r matches Err(e) ==> (e matches AppError::InvalidRequest(m) && m@
            == "Tombstone requires a non-empty key"@),
{
    if request.key.as_str().is_empty() {
        return Err(AppError::InvalidRequest("Tombstone requires a non-empty key".to_owned()));
    }
    Ok(())
}

/// The answer to a tombstone request that was written at `partition` and
/// `offset`.
pub fn produce_result(request: &ProduceTombstoneRequest, partition: i32, offset: i64) -> (r:
    ProduceResult)
    ensures
        r.topic@ == request.topic@,
        r.partition == partition,
        r.offset == offset,
{
    ProduceResult { topic: request.topic.clone(), partition, offset }
}

} // verus!
