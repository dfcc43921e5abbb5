//! Interpretation of one event payload of the streamed-responses protocol.
//!
//! A payload is either the literal `[DONE]` or a JSON document with a `type`
//! member. Only two types matter; everything else is ignored, so that new
//! upstream event types pass through without harm.

use crate::text::{same_text, trim, trimmed_equals};
use vstd::prelude::*;

verus! {

/// A parsed JSON document of `serde_json`; nothing of its inside is visible here.
#[verifier::external_type_specification]
#[verifier::external_body]
pub struct ExJsonValue(serde_json::Value);

/// The document that `text` parses to as JSON, or `None` where it is not one.
pub uninterp spec fn json_document(text: Seq<char>) -> Option<serde_json::Value>;

/// The member of a JSON object under `key`; `None` where the value is no
/// object or has no such member.
pub uninterp spec fn json_member(value: serde_json::Value, key: Seq<char>) -> Option<
    serde_json::Value,
>;

/// The text that a JSON string value holds; `None` for any other kind of value.
pub uninterp spec fn json_string(value: serde_json::Value) -> Option<Seq<char>>;

/// Calls `serde_json::from_str` for a `Value`. Whether the text parses, and to
/// what, depends on the text alone; a parse error is mapped to `None`.
#[verifier::external_body]
fn parse_json(text: &str) -> (r: Option<serde_json::Value>)
    ensures
        r == json_document(text@),
{
    serde_json::from_str::<serde_json::Value>(text).ok()
}

/// Calls `serde_json::Value::get` with a string key: the member of an object
/// under that key, `None` for a missing key or a value that is no object.
#[verifier::external_body]
fn member<'a>(value: &'a serde_json::Value, key: &str) -> (r: Option<&'a serde_json::Value>)
    ensures
        match r {
            Some(m) => json_member(*value, key@) == Some(*m),
            None => json_member(*value, key@) is None,
        },
{
    value.get(key)
}

/// Calls `serde_json::Value::as_str`: the text of a string value, `None` for
/// any other kind of value.
#[verifier::external_body]
fn string_of<'a>(value: &'a serde_json::Value) -> (r: Option<&'a str>)
    ensures
        match r {
            Some(s) => json_string(*value) == Some(s@),
            None => json_string(*value) is None,
        },
{
    value.as_str()
}

/// The text of the string member under `key`; `None` where the value is no
/// object, has no such member, or the member is no string.
pub open spec fn json_string_member(value: serde_json::Value, key: Seq<char>) -> Option<
    Seq<char>,
> {
    match json_member(value, key) {
        Some(m) => json_string(m),
        None => None,
    }
}

fn string_member<'a>(value: &'a serde_json::Value, key: &str) -> (r: Option<&'a str>)
    ensures
        match r {
            Some(s) => json_string_member(*value, key@) == Some(s@),
            None => json_string_member(*value, key@) is None,
        },
{
    match member(value, key) {
        Some(m) => string_of(m),
        None => None,
    }
}

/// What one event payload asks the relay to do.
#[derive(Clone, Debug, PartialEq, Eq)]
pub enum SsePayload {
    /// The literal `[DONE]`: the stream is over.
    Done,
    /// A piece of audio, base64-encoded by the provider.
    AudioDelta(String),
    /// The response is complete: the stream is over.
    Completed,
    /// Anything else, unparsable text included.
    Ignored,
}

/// [`SsePayload`] with its text as a sequence of characters.
pub enum PayloadView {
    Done,
    AudioDelta(Seq<char>),
    Completed,
    Ignored,
}

impl View for SsePayload {
    type V = PayloadView;

    open spec fn view(&self) -> PayloadView {
        match self {
            SsePayload::Done => PayloadView::Done,
            SsePayload::AudioDelta(data) => PayloadView::AudioDelta(data@),
            SsePayload::Completed => PayloadView::Completed,
            SsePayload::Ignored => PayloadView::Ignored,
        }
    }
}

/// The `type` of an event that carries audio.
pub open spec fn audio_delta_type() -> Seq<char> {
    "response.output_audio.delta"@
}

/// The `type` of the event that ends a response.
pub open spec fn completed_type() -> Seq<char> {
    "response.completed"@
}

/// The audio of a delta event: the `delta` member where it is a string, else
/// the `audio` member, else nothing.
pub open spec fn delta_audio(delta: Option<Seq<char>>, audio: Option<Seq<char>>) -> Seq<char> {
    match delta {
        Some(d) => d,
        None => match audio {
            Some(a) => a,
            None => Seq::empty(),
        },
    }
}

/// What a JSON payload means, given its `type`, `delta` and `audio` string members.
pub open spec fn payload_of_fields(
    kind: Option<Seq<char>>,
    delta: Option<Seq<char>>,
    audio: Option<Seq<char>>,
) -> PayloadView {
    if kind == Some(audio_delta_type()) {
        if delta_audio(delta, audio).len() > 0 {
            PayloadView::AudioDelta(delta_audio(delta, audio))
        } else {
            PayloadView::Ignored
        }
    } else if kind == Some(completed_type()) {
        PayloadView::Completed
    } else {
        PayloadView::Ignored
    }
}

/// What a payload means.
pub open spec fn payload_of(data: Seq<char>) -> PayloadView {
    if trim(data) == "[DONE]"@ {
        PayloadView::Done
    } else {
        match json_document(data) {
            Some(doc) => payload_of_fields(
                json_string_member(doc, "type"@),
                json_string_member(doc, "delta"@),
                json_string_member(doc, "audio"@),
            ),
            None => PayloadView::Ignored,
        }
    }
}

/// Interprets the `type`, `delta` and `audio` string members of a JSON payload.
pub fn classify_fields(kind: Option<&str>, delta: Option<&str>, audio: Option<&str>) -> (r:
    SsePayload)
    ensures
        r@ == payload_of_fields(
            match kind {
                Some(s) => Some(s@),
                None => None,
            },
            match delta {
                Some(s) => Some(s@),
                None => None,
            },
            match audio {
                Some(s) => Some(s@),
                None => None,
            },
        ),
{
    let kind = match kind {
        Some(k) => k,
        None => {
            return SsePayload::Ignored;
        },
    };
    if same_text(kind, "response.output_audio.delta") {
        let data: &str = match delta {
            Some(d) => d,
            None => match audio {
                Some(a) => a,
                None => "",
            },
        };
        proof {
            reveal_strlit("");
        }
        if data.is_empty() {
            SsePayload::Ignored
        } else {
            SsePayload::AudioDelta(data.to_owned())
        }
    } else if same_text(kind, "response.completed") {
        SsePayload::Completed
    } else {
        SsePayload::Ignored
    }
}

/// Interprets one event payload.
pub fn classify_payload(data: &str) -> (r: SsePayload)
    ensures
        r@ == payload_of(data@),
{
    if trimmed_equals(data, "[DONE]") {
        return SsePayload::Done;
    }
    match parse_json(data) {
        Some(doc) => classify_fields(
            string_member(&doc, "type"),
            string_member(&doc, "delta"),
            string_member(&doc, "audio"),
        ),
        None => SsePayload::Ignored,
    }
}

} // verus!
