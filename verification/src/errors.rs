//! Error taxonomy of the ingestion paths.
//!
//! A transport error means the far side could not be reached and the
//! operation surfaces to the job loop; a row rejection is recovered
//! locally by the bulk writer; a missing checkpoint is a valid state,
//! not an error.

use vstd::prelude::*;

use crate::bulk::SinkError;

verus! {

/// A failure to reach the upstream provider or a store at all.
#[derive(Clone, Debug, PartialEq)]
pub struct TransportError {
    /// What the transport layer reported.
    pub message: String,
}

/// An error reported by the analytical store.
#[derive(Clone, Debug, PartialEq)]
pub enum ClickhouseError {
    /// The store could not be reached.
    ConnectionError(String),
    /// The store refused the statement or its rows.
    QueryError(String),
    /// A row could not be converted to or from the store's types.
    ConversionError(String),
    /// The requested record does not exist.
    NotFound,
}

impl ClickhouseError {
    /// How the bulk writer classifies this error: a connection failure is
    /// store unavailability, everything else counts as row rejection.
    pub fn to_sink_error(&self) -> (r: SinkError)
        ensures
            r == (match self {
                ClickhouseError::ConnectionError(_) => SinkError::Unavailable,
                _ => SinkError::Rejected,
            }),
    {
        match self {
            ClickhouseError::ConnectionError(_) => SinkError::Unavailable,
            _ => SinkError::Rejected,
        }
    }

    /// A readable description of the error.
    pub fn message(&self) -> (r: String)
        ensures
            (match self {
                ClickhouseError::ConnectionError(m) => r@ == "Connection error: "@ + m@,
                ClickhouseError::QueryError(m) => r@ == "Query error: "@ + m@,
                ClickhouseError::ConversionError(m) => r@ == "Conversion error: "@ + m@,
                ClickhouseError::NotFound => r@ == "Record not found"@,
            }),
    {
        match self {
            ClickhouseError::ConnectionError(m) => {
                String::from_str("Connection error: ").concat(m.as_str())
            },
            ClickhouseError::QueryError(m) => {
                String::from_str("Query error: ").concat(m.as_str())
            },
            ClickhouseError::ConversionError(m) => {
                String::from_str("Conversion error: ").concat(m.as_str())
            },
            ClickhouseError::NotFound => String::from_str("Record not found"),
        }
    }
}

} // verus!
