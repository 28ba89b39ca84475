//! The library's errors, and the error and result envelopes that every
//! command answers with.
use vstd::prelude::*;
use vstd::string::*;

use crate::ids::{is_uuid_text, new_uuid_string};
use crate::text::{concat_text, contains, lowercased, spec_contains, to_lowercase};

verus! {

/// What can go wrong in an operation.
#[derive(Debug, Clone, PartialEq, Eq)]
pub enum AppError {
    KafkaConnection(String),
    KafkaAuth(String),
    KafkaTimeout,
    InvalidRequest(String),
    Storage(String),
    NotConnected,
    Cancelled,
}

impl AppError {
    /// The human-readable text of the error.
    pub open spec fn spec_message(&self) -> Seq<char> {
        match self {
            AppError::KafkaConnection(m) => "Kafka connection failed: "@ + m@,
            AppError::KafkaAuth(m) => "Kafka authentication failed: "@ + m@,
            AppError::KafkaTimeout => "Kafka operation timed out"@,
            AppError::InvalidRequest(m) => "Invalid request: "@ + m@,
            AppError::Storage(m) => "Storage error: "@ + m@,
            AppError::NotConnected => "Not connected"@,
            AppError::Cancelled => "Operation cancelled"@,
        }
    }

    /// The human-readable text of the error.
    pub fn message(&self) -> (r: String)
        ensures
            r@ == self.spec_message(),
    {
        match self {
            AppError::KafkaConnection(m) => concat_text("Kafka connection failed: ", m.as_str()),
            AppError::KafkaAuth(m) => concat_text("Kafka authentication failed: ", m.as_str()),
            AppError::KafkaTimeout => "Kafka operation timed out".to_owned(),
            AppError::InvalidRequest(m) => concat_text("Invalid request: ", m.as_str()),
            AppError::Storage(m) => concat_text("Storage error: ", m.as_str()),
            AppError::NotConnected => "Not connected".to_owned(),
            AppError::Cancelled => "Operation cancelled".to_owned(),
        }
    }
}

/// The error the user interface receives.
#[derive(Debug, Clone, PartialEq, Eq)]
pub struct ApiError {
    pub code: String,
    pub message: String,
    pub detail: Option<String>,
    pub retryable: bool,
    pub operation_id: String,
}

/// The code that an invalid request is reported under, chosen by what its
/// message mentions.
pub open spec fn invalid_request_code(m: Seq<char>) -> Seq<char> {
    if spec_contains(m, "DELETE_NOT_CONFIRMED"@) {
        "DELETE_NOT_CONFIRMED"@
    } else if spec_contains(m, "INVALID_OFFSET"@) {
        "INVALID_OFFSET"@
    } else if spec_contains(lowercased(m), "not found"@) {
        "TOPIC_NOT_FOUND"@
    } else if spec_contains(lowercased(m), "already exists"@) {
        "TOPIC_ALREADY_EXISTS"@
    } else {
        "INVALID_REQUEST"@
    }
}

/// The code that an error is reported under.
pub open spec fn error_code(e: AppError) -> Seq<char> {
    match e {
        AppError::KafkaConnection(_) => "KAFKA_CONNECTION_FAILED"@,
        AppError::KafkaAuth(_) => "KAFKA_AUTH_FAILED"@,
        AppError::KafkaTimeout => "KAFKA_TIMEOUT"@,
        AppError::InvalidRequest(m) => invalid_request_code(m@),
        AppError::Storage(_) => "STORAGE_ERROR"@,
        AppError::NotConnected => "NOT_CONNECTED"@,
        AppError::Cancelled => "SESSION_CANCELLED"@,
    }
}

/// Whether trying the operation again may succeed.
pub open spec fn is_retryable(e: AppError) -> bool {
    e is KafkaConnection || e is KafkaTimeout
}

/// `a` reports `e` under the operation id `op`.
pub open spec fn reports(a: ApiError, e: AppError, op: Seq<char>) -> bool {
    &&& a.code@ == error_code(e)
    &&& a.message@ == e.spec_message()
    &&& a.detail is None
    &&& a.retryable == is_retryable(e)
    &&& a.operation_id@ == op
}

fn invalid_request_code_of(m: &String) -> (r: String)
    ensures
        r@ == invalid_request_code(m@),
{
    if contains(m.as_str(), "DELETE_NOT_CONFIRMED") {
        "DELETE_NOT_CONFIRMED".to_owned()
    } else if contains(m.as_str(), "INVALID_OFFSET") {
        "INVALID_OFFSET".to_owned()
    } else {
        let lower = to_lowercase(m.as_str());
        if contains(lower.as_str(), "not found") {
            "TOPIC_NOT_FOUND".to_owned()
        } else if contains(lower.as_str(), "already exists") {
            "TOPIC_ALREADY_EXISTS".to_owned()
        } else {
            "INVALID_REQUEST".to_owned()
        }
    }
}

/// The code that `error` is reported under.
pub fn code_of(error: &AppError) -> (r: String)
    ensures
        r@ == error_code(*error),
{
    match error {
        AppError::KafkaConnection(_) => "KAFKA_CONNECTION_FAILED".to_owned(),
        AppError::KafkaAuth(_) => "KAFKA_AUTH_FAILED".to_owned(),
        AppError::KafkaTimeout => "KAFKA_TIMEOUT".to_owned(),
        AppError::InvalidRequest(m) => invalid_request_code_of(m),
        AppError::Storage(_) => "STORAGE_ERROR".to_owned(),
        AppError::NotConnected => "NOT_CONNECTED".to_owned(),
        AppError::Cancelled => "SESSION_CANCELLED".to_owned(),
    }
}

/// The report of `error` under a given operation id.
pub fn api_error(error: AppError, operation_id: String) -> (r: ApiError)
    ensures
        reports(r, error, operation_id@),
{
    let retryable = match &error {
        AppError::KafkaConnection(_) => true,
        AppError::KafkaTimeout => true,
        _ => false,
    };
    ApiError {
        code: code_of(&error),
        message: error.message(),
        detail: None,
        retryable,
        operation_id,
    }
}

impl ApiError {
    /// The report of `error`; without an operation id a fresh random one is
    /// made for it.
    pub fn from_app_error(error: AppError, operation_id: Option<String>) -> (r: ApiError)
        ensures
            operation_id matches Some(id) ==> reports(r, error, id@),
            operation_id is None ==> exists|op: Seq<char>| is_uuid_text(op) && reports(r, error, op),
    {
        let op = match operation_id {
            Some(id) => id,
            None => new_uuid_string(),
        };
        api_error(error, op)
    }
}

/// The answer to a command: either its data or the report of its error.
#[derive(Debug, Clone, PartialEq, Eq)]
pub struct ApiResult<T> {
    pub ok: bool,
    pub data: Option<T>,
    pub error: Option<ApiError>,
}

impl<T> ApiResult<T> {
    /// A successful answer carrying `data`.
    pub fn success(data: T) -> (r: Self)
        ensures
            r.ok,
            r.data == Some(data),
            r.error is None,
    {
        ApiResult { ok: true, data: Some(data), error: None }
    }

    /// A failed answer carrying `error`.
    pub fn failure(error: ApiError) -> (r: Self)
        ensures
            !r.ok,
            r.data is None,
            r.error == Some(error),
    {
        ApiResult { ok: false, data: None, error: Some(error) }
    }
}

/// `a` answers the outcome `result` of the operation `op`.
pub open spec fn answers<T>(a: ApiResult<T>, result: Result<T, AppError>, op: Seq<char>) -> bool {
    match result {
        Ok(d) => a.ok && a.data == Some(d) && a.error is None,
        Err(e) => !a.ok && a.data is None && (a.error matches Some(ae) && reports(ae, e, op)),
    }
}

/// The answer to the outcome `result` of the operation `operation_id`.
pub fn answer<T>(operation_id: String, result: Result<T, AppError>) -> (r: ApiResult<T>)
    ensures
        answers(r, result, operation_id@),
{
    match result {
        Ok(data) => ApiResult::success(data),
        Err(err) => ApiResult::failure(ApiError::from_app_error(err, Some(operation_id))),
    }
}

/// Runs `f` and answers its outcome under `operation_id`.
pub fn wrap<T, F>(operation_id: String, f: F) -> (r: ApiResult<T>) where
    F: FnOnce() -> Result<T, AppError>,

    requires
        f.requires(()),
    ensures
        exists|out: Result<T, AppError>| f.ensures((), out) && answers(r, out, operation_id@),
{
    let out = f();
    answer(operation_id, out)
}

} // verus!
