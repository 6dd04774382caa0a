//! Core of the Connect unary RPC protocol over HTTP: encoding negotiation,
//! message extraction from POST bodies and GET queries, the error-code
//! translation table, route construction, and per-method dispatch.
//!
//! Everything here is pure: the hosting transport reads the request and
//! hands plain values in, and turns the returned status, bytes and
//! content-type back into an HTTP response.

pub mod b64;
pub mod dispatch;
pub mod error;
pub mod extract;
pub mod hex;
pub mod percent;
pub mod message;
pub mod query;
pub mod response;
pub mod router;
pub mod text;

use vstd::prelude::*;

verus! {

broadcast use vstd::string::group_string_axioms;

/// The two wire encodings of the Connect protocol.
#[derive(Debug, Clone, Copy, PartialEq, Eq, Structural)]
pub enum Encoding {
    Json,
    Proto,
}

/// The HTTP verbs the protocol accepts for unary calls.
#[derive(Debug, Clone, Copy, PartialEq, Eq, Structural)]
pub enum Method {
    Get,
    Post,
}

/// The sixteen canonical status codes of the protocol.
#[derive(Debug, Clone, Copy, PartialEq, Eq, Structural)]
pub enum Code {
    Canceled,
    Unknown,
    InvalidArgument,
    DeadlineExceeded,
    NotFound,
    AlreadyExists,
    PermissionDenied,
    ResourceExhausted,
    FailedPrecondition,
    Aborted,
    OutOfRange,
    Unimplemented,
    Internal,
    Unavailable,
    DataLoss,
    Unauthenticated,
}

/// One protobuf `Any`-style detail attached to an error.
#[derive(Debug, Clone)]
pub struct ErrorDetail {
    pub type_url: String,
    pub value: Vec<u8>,
}

/// Mathematical model of an [`ErrorDetail`].
pub struct ErrorDetailModel {
    pub type_url: Seq<char>,
    pub value: Seq<u8>,
}

impl View for ErrorDetail {
    type V = ErrorDetailModel;

    open spec fn view(&self) -> ErrorDetailModel {
        ErrorDetailModel { type_url: self.type_url@, value: self.value@ }
    }
}

/// A terminal error classification: a canonical code, a human-readable
/// message, and an optional ordered list of details (empty by default).
#[derive(Debug)]
pub struct ConnectError {
    pub code: Code,
    pub message: String,
    pub details: Vec<ErrorDetail>,
}

/// A normalized, encoding-tagged request: the fully materialized message
/// bytes plus the protocol metadata that arrived with them.
#[derive(Debug)]
pub struct ConnectRequest {
    pub message: Vec<u8>,
    pub encoding: Encoding,
    pub method: Method,
    pub timeout_ms: Option<u64>,
    pub protocol_version: Option<String>,
}

/// A successful unary response: encoded message bytes, tagged with the
/// encoding they carry (always the encoding the request arrived with).
#[derive(Debug)]
pub struct ConnectResponse {
    pub message: Vec<u8>,
    pub encoding: Encoding,
}

/// Mathematical model of a [`ConnectRequest`].
pub struct ConnectRequestModel {
    pub message: Seq<u8>,
    pub encoding: Encoding,
    pub method: Method,
    pub timeout_ms: Option<u64>,
    pub protocol_version: Option<Seq<char>>,
}

impl View for ConnectRequest {
    type V = ConnectRequestModel;

    open spec fn view(&self) -> ConnectRequestModel {
        ConnectRequestModel {
            message: self.message@,
            encoding: self.encoding,
            method: self.method,
            timeout_ms: self.timeout_ms,
            protocol_version: match self.protocol_version {
                Some(ref v) => Some(v@),
                None => None,
            },
        }
    }
}

impl ConnectError {
    /// A fresh error with the given code and message and no details.
    pub fn new(code: Code, message: &str) -> (e: ConnectError)
        ensures
            e.code == code,
            e.message@ == message@,
            e.details@.len() == 0,
    {
        ConnectError { code, message: message.to_owned(), details: Vec::new() }
    }

    /// Shorthand for a `Code::Internal` error.
    pub fn internal(message: &str) -> (e: ConnectError)
        ensures
            e.code == Code::Internal,
            e.message@ == message@,
            e.details@.len() == 0,
    {
        Self::new(Code::Internal, message)
    }

    /// Shorthand for a `Code::InvalidArgument` error.
    pub fn invalid_argument(message: &str) -> (e: ConnectError)
        ensures
            e.code == Code::InvalidArgument,
            e.message@ == message@,
            e.details@.len() == 0,
    {
        Self::new(Code::InvalidArgument, message)
    }

    /// Shorthand for a `Code::NotFound` error.
    pub fn not_found(message: &str) -> (e: ConnectError)
        ensures
            e.code == Code::NotFound,
            e.message@ == message@,
            e.details@.len() == 0,
    {
        Self::new(Code::NotFound, message)
    }

    /// Shorthand for a `Code::Unimplemented` error.
    pub fn unimplemented(message: &str) -> (e: ConnectError)
        ensures
            e.code == Code::Unimplemented,
            e.message@ == message@,
            e.details@.len() == 0,
    {
        Self::new(Code::Unimplemented, message)
    }
}

} // verus!
