//! What the upstream provider can answer, as plain values.
//!
//! The caller performs the HTTP exchange and reports each outcome with one of
//! these values; all delivery modes word an upstream failure the same way.

use crate::text::{decimal_digits, decimal_string};
use vstd::prelude::*;
use vstd::string::StringExecFns;

verus! {

/// How the upstream request ended before any body was read.
#[derive(Clone, Debug, PartialEq, Eq)]
pub enum UpstreamResponse {
    /// No response arrived: a failure of the network or of the client.
    Unreachable { reason: String },
    /// A response with a status outside the 2xx range, with its body as text.
    Rejected { status: u16, body: String },
    /// A success response whose body is about to be streamed.
    Accepted,
}

/// The outcome of waiting for the next piece of the upstream body.
#[derive(Clone, Debug, PartialEq, Eq)]
pub enum UpstreamPull {
    /// Cancellation was requested before a piece arrived.
    Cancelled,
    /// The next piece of the body.
    Chunk(Vec<u8>),
    /// Reading failed in mid-stream.
    Failed { reason: String },
    /// The body is complete.
    Exhausted,
}

/// Whether an HTTP status code reports success.
pub open spec fn is_success(status: u16) -> bool {
    200 <= status < 300
}

/// Whether an HTTP status code reports success.
pub fn status_is_success(status: u16) -> (r: bool)
    ensures
        r == is_success(status),
{
    200 <= status && status < 300
}

/// `request failed: {reason}`
pub open spec fn unreachable_message(reason: Seq<char>) -> Seq<char> {
    "request failed: "@ + reason
}

/// `upstream error {status}: {body}`
pub open spec fn rejection_message(status: u16, body: Seq<char>) -> Seq<char> {
    "upstream error "@ + decimal_digits(status as nat) + ": "@ + body
}

/// `stream error: {reason}`
pub open spec fn read_failure_message(reason: Seq<char>) -> Seq<char> {
    "stream error: "@ + reason
}

/// Words the failure of a request that got no response.
pub fn describe_unreachable(reason: &str) -> (message: String)
    ensures
        message@ == unreachable_message(reason@),
{
    let mut message = String::from_str("request failed: ");
    message.append(reason);
    message
}

/// Words the rejection of a request: the status code, then the response body.
pub fn describe_rejection(status: u16, body: &str) -> (message: String)
    ensures
        message@ == rejection_message(status, body@),
{
    let mut message = String::from_str("upstream error ");
    let code = decimal_string(status as u64);
    message.append(code.as_str());
    message.append(": ");
    message.append(body);
    message
}

/// Words the failure of a read in mid-stream.
pub fn describe_read_failure(reason: &str) -> (message: String)
    ensures
        message@ == read_failure_message(reason@),
{
    let mut message = String::from_str("stream error: ");
    message.append(reason);
    message
}

} // verus!
