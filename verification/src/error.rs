//! The failures of the subsystem.

use crate::upstream::{
    describe_rejection, describe_unreachable, rejection_message, unreachable_message,
    UpstreamResponse,
};
use vstd::prelude::*;
use vstd::string::StringExecFns;

verus! {

/// Why an operation ended without its result. Every failure is final for the
/// operation that met it; nothing is retried at this layer.
#[derive(Clone, Debug, PartialEq, Eq)]
pub enum TtsError {
    /// The request never got a response.
    UpstreamRequestFailed { reason: String },
    /// The provider answered with a status outside the 2xx range.
    UpstreamRejected { status: u16, body: String },
    /// The audio could not be decoded, or decoding gave no samples.
    DecodeFailed { reason: String },
    /// The output could not be created, written or finished.
    EncodeFailed { reason: String },
    /// No session is registered under the id.
    SessionNotFound,
    /// The operation was cancelled on request: a normal end, not a fault.
    Cancelled,
}

/// The failure that the outcome of an upstream request stands for, if any.
pub open spec fn failure_in(response: UpstreamResponse) -> Option<TtsError> {
    match response {
        UpstreamResponse::Unreachable { reason } => Some(
            TtsError::UpstreamRequestFailed { reason },
        ),
        UpstreamResponse::Rejected { status, body } => Some(
            TtsError::UpstreamRejected { status, body },
        ),
        UpstreamResponse::Accepted => None,
    }
}

/// The failure that the outcome of an upstream request stands for, if any.
pub fn failure_of(response: UpstreamResponse) -> (r: Option<TtsError>)
    ensures
        r == failure_in(response),
{
    match response {
        UpstreamResponse::Unreachable { reason } => Some(
            TtsError::UpstreamRequestFailed { reason },
        ),
        UpstreamResponse::Rejected { status, body } => Some(
            TtsError::UpstreamRejected { status, body },
        ),
        UpstreamResponse::Accepted => None,
    }
}

impl TtsError {
    /// Whether the value reports a fault, which cancellation is not.
    pub fn is_failure(&self) -> (r: bool)
        ensures
            r == !(self is Cancelled),
    {
        match self {
            TtsError::Cancelled => false,
            _ => true,
        }
    }

    /// The error in words.
    pub open spec fn text(self) -> Seq<char> {
        match self {
            TtsError::UpstreamRequestFailed { reason } => unreachable_message(reason@),
            TtsError::UpstreamRejected { status, body } => rejection_message(status, body@),
            TtsError::DecodeFailed { reason } => reason@,
            TtsError::EncodeFailed { reason } => reason@,
            TtsError::SessionNotFound => "Session not found"@,
            TtsError::Cancelled => "cancelled"@,
        }
    }

    /// The error in words, as it is shown to the user or sent to a client.
    pub fn message(&self) -> (r: String)
        ensures
            r@ == self.text(),
    {
        match self {
            TtsError::UpstreamRequestFailed { reason } => describe_unreachable(reason.as_str()),
            TtsError::UpstreamRejected { status, body } => describe_rejection(
                *status,
                body.as_str(),
            ),
            TtsError::DecodeFailed { reason } => reason.clone(),
            TtsError::EncodeFailed { reason } => reason.clone(),
            TtsError::SessionNotFound => String::from_str("Session not found"),
            TtsError::Cancelled => String::from_str("cancelled"),
        }
    }
}

} // verus!
