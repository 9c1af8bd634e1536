//! The errors of a polling process.

use vstd::prelude::*;
use crate::parse::DeserializationError;

verus! {

/// Why a query brought no events.
#[derive(Debug, Clone, Copy, PartialEq, Eq, Structural)]
pub enum QueryFailure {
    /// The relays did not answer within the query's timeout.
    Timeout,
    /// The session is unusable or the transport failed.
    Transport,
}

/// Every error ends the process; none is retried.
#[derive(Debug, Clone, Copy, PartialEq, Eq, Structural)]
pub enum CycleError {
    /// The private key is missing or invalid.
    Config,
    /// A relay cannot be reached.
    Connection,
    /// The query failed.
    Query(QueryFailure),
    /// An event is not a record.
    Deserialization(DeserializationError),
    /// The output file cannot be written.
    Io,
}

/// The status with which a process that ends on an error exits.
pub const FAILURE_STATUS: i32 = 1;

/// The diagnostic text of an error.
pub open spec fn message_spec(e: CycleError) -> Seq<char> {
    match e {
        CycleError::Config => "configuration error: private key missing or invalid"@,
        CycleError::Connection => "connection error: relay unreachable"@,
        CycleError::Query(QueryFailure::Timeout) => "query error: timed out"@,
        CycleError::Query(QueryFailure::Transport) => "query error: transport failed"@,
        CycleError::Deserialization(DeserializationError::MalformedId) =>
            "deserialization error: malformed identifier"@,
        CycleError::Deserialization(DeserializationError::MalformedPubkey) =>
            "deserialization error: malformed public key"@,
        CycleError::Io => "i/o error: cannot write the output file"@,
    }
}

impl CycleError {
    /// The diagnostic text of this error.
    pub fn message(&self) -> (r: String)
        ensures
            r@ == message_spec(*self),
    {
        match self {
            CycleError::Config => "configuration error: private key missing or invalid".to_owned(),
            CycleError::Connection => "connection error: relay unreachable".to_owned(),
            CycleError::Query(QueryFailure::Timeout) => "query error: timed out".to_owned(),
            CycleError::Query(QueryFailure::Transport) => "query error: transport failed".to_owned(),
            CycleError::Deserialization(DeserializationError::MalformedId) =>
                "deserialization error: malformed identifier".to_owned(),
            CycleError::Deserialization(DeserializationError::MalformedPubkey) =>
                "deserialization error: malformed public key".to_owned(),
            CycleError::Io => "i/o error: cannot write the output file".to_owned(),
        }
    }

    /// The exit status of a process that ends on this error: never zero.
    pub fn exit_status(&self) -> (code: i32)
        ensures
            code == FAILURE_STATUS,
            code != 0,
    {
        FAILURE_STATUS
    }
}

} // verus!
