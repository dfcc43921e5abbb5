//! Construction of the upstream synthesis requests.
//!
//! The three delivery modes (a finished file, pushed chunks, a pulled
//! session stream) ask the provider in the same shape; they differ in their
//! defaults and in the MIME types they announce.

use crate::server::StreamingSession;
use crate::text::{contains_text, is_blank, same_text, text_contains, text_is_blank};
use vstd::prelude::*;
use vstd::string::StringExecFns;

verus! {

/// Where binary speech is requested.
pub const SPEECH_ENDPOINT: &'static str = "https://api.openai.com/v1/audio/speech";

/// Where speech is requested as a stream of events.
pub const RESPONSES_ENDPOINT: &'static str = "https://api.openai.com/v1/responses";

/// The audio containers that are told apart by name.
#[derive(Clone, Copy, PartialEq, Eq, Structural, Debug)]
pub enum AudioFormat {
    Mp3,
    Wav,
    Opus,
    /// Any other name.
    Other,
}

/// The container that a format name stands for.
pub open spec fn format_of(name: Seq<char>) -> AudioFormat {
    if name == "mp3"@ {
        AudioFormat::Mp3
    } else if name == "wav"@ {
        AudioFormat::Wav
    } else if name == "opus"@ {
        AudioFormat::Opus
    } else {
        AudioFormat::Other
    }
}

/// Tells the container from a format name.
pub fn parse_format(name: &str) -> (format: AudioFormat)
    ensures
        format == format_of(name@),
{
    if same_text(name, "mp3") {
        AudioFormat::Mp3
    } else if same_text(name, "wav") {
        AudioFormat::Wav
    } else if same_text(name, "opus") {
        AudioFormat::Opus
    } else {
        AudioFormat::Other
    }
}

/// MIME type announced at the start of a pushed chunk stream: MP3 where it
/// was asked for, Ogg/Opus for anything else.
pub open spec fn chunk_stream_mime(format: AudioFormat) -> Seq<char> {
    if format == AudioFormat::Mp3 {
        "audio/mpeg"@
    } else {
        "audio/ogg; codecs=opus"@
    }
}

/// MIME type announced at the start of a pushed event stream.
pub open spec fn event_stream_mime(format: AudioFormat) -> Seq<char> {
    match format {
        AudioFormat::Mp3 => "audio/mpeg"@,
        AudioFormat::Wav => "audio/wav"@,
        _ => "audio/ogg; codecs=opus"@,
    }
}

/// MIME type of a pulled session stream, also sent upstream as `Accept`.
pub open spec fn session_mime(format: AudioFormat) -> Seq<char> {
    match format {
        AudioFormat::Wav => "audio/wav"@,
        AudioFormat::Opus => "audio/ogg"@,
        _ => "audio/mpeg"@,
    }
}

/// `Accept` header of a request for a finished file: WAV unless MP3 or Opus was asked for.
pub open spec fn file_accept(format: AudioFormat) -> Seq<char> {
    match format {
        AudioFormat::Mp3 => "audio/mpeg"@,
        AudioFormat::Opus => "audio/ogg"@,
        _ => "audio/wav"@,
    }
}

/// Format named in the body of a request for a finished file.
pub open spec fn file_body_format(format: AudioFormat) -> Seq<char> {
    match format {
        AudioFormat::Mp3 => "mp3"@,
        AudioFormat::Opus => "opus"@,
        _ => "wav"@,
    }
}

/// Format named in the body of a request for pushed chunks.
pub open spec fn chunk_body_format(format: AudioFormat) -> Seq<char> {
    if format == AudioFormat::Mp3 {
        "mp3"@
    } else {
        "opus"@
    }
}

/// MIME type announced at the start of a pushed chunk stream.
pub fn mime_for_chunk_stream(format: AudioFormat) -> (mime: &'static str)
    ensures
        mime@ == chunk_stream_mime(format),
{
    match format {
        AudioFormat::Mp3 => "audio/mpeg",
        _ => "audio/ogg; codecs=opus",
    }
}

/// MIME type announced at the start of a pushed event stream.
pub fn mime_for_event_stream(format: AudioFormat) -> (mime: &'static str)
    ensures
        mime@ == event_stream_mime(format),
{
    match format {
        AudioFormat::Mp3 => "audio/mpeg",
        AudioFormat::Wav => "audio/wav",
        _ => "audio/ogg; codecs=opus",
    }
}

/// MIME type of a pulled session stream.
pub fn mime_for_session(format: AudioFormat) -> (mime: &'static str)
    ensures
        mime@ == session_mime(format),
{
    match format {
        AudioFormat::Wav => "audio/wav",
        AudioFormat::Opus => "audio/ogg",
        _ => "audio/mpeg",
    }
}

/// `Accept` header of a request for a finished file.
pub fn accept_for_file(format: AudioFormat) -> (mime: &'static str)
    ensures
        mime@ == file_accept(format),
{
    match format {
        AudioFormat::Mp3 => "audio/mpeg",
        AudioFormat::Opus => "audio/ogg",
        _ => "audio/wav",
    }
}

/// The text of an optional setting, or the default where it is not given.
pub open spec fn text_or(value: Option<String>, default: Seq<char>) -> Seq<char> {
    match value {
        Some(s) => s@,
        None => default,
    }
}

/// The given text, or the default where none is given.
pub fn or_default(value: Option<String>, default: &str) -> (r: String)
    ensures
        r@ == text_or(value, default@),
{
    match value {
        Some(s) => s,
        None => String::from_str(default),
    }
}

/// The instructions that are sent along: only those that hold more than white space.
pub open spec fn sent_instructions(instructions: Option<String>) -> Option<String> {
    match instructions {
        Some(s) => if is_blank(s@) {
            None
        } else {
            Some(s)
        },
        None => None,
    }
}

/// Drops instructions that are empty or blank.
pub fn effective_instructions(instructions: Option<String>) -> (r: Option<String>)
    ensures
        r == sent_instructions(instructions),
{
    match instructions {
        Some(s) => {
            if text_is_blank(s.as_str()) {
                None
            } else {
                Some(s)
            }
        },
        None => None,
    }
}

/// The body and `Accept` header of a `POST` to the speech endpoint.
#[derive(Clone, Debug, PartialEq, Eq)]
pub struct SpeechRequest {
    pub model: String,
    pub input: String,
    pub voice: String,
    pub format: String,
    /// Left out of the body where `None`.
    pub instructions: Option<String>,
    pub accept: String,
}

/// The body of a `POST` to the responses endpoint. The request also names the
/// modalities `text` and `audio`, sets `stream`, and accepts `text/event-stream`.
#[derive(Clone, Debug, PartialEq, Eq)]
pub struct ResponsesRequest {
    pub model: String,
    pub voice: String,
    pub format: String,
    pub input: String,
}

/// The upstream request that serves a pulled session stream.
pub fn session_speech_request(session: &StreamingSession) -> (r: SpeechRequest)
    ensures
        r.model == session.model,
        r.input == session.text,
        r.voice == session.voice,
        r.format == session.format,
        r.instructions == sent_instructions(session.instructions),
        r.accept@ == session_mime(format_of(session.format@)),
{
    let format = parse_format(session.format.as_str());
    let instructions = match &session.instructions {
        Some(s) => Some(s.clone()),
        None => None,
    };
    SpeechRequest {
        model: session.model.clone(),
        input: session.text.clone(),
        voice: session.voice.clone(),
        format: session.format.clone(),
        instructions: effective_instructions(instructions),
        accept: String::from_str(mime_for_session(format)),
    }
}

/// The upstream request of a pushed chunk stream. Voice defaults to `alloy`,
/// model to `gpt-4o-mini-tts`, format to Opus; any format but MP3 is asked for as Opus.
pub fn chunk_stream_request(
    text: String,
    voice: Option<String>,
    model: Option<String>,
    format: Option<String>,
) -> (r: SpeechRequest)
    ensures
        r.input == text,
        r.voice@ == text_or(voice, "alloy"@),
        r.model@ == text_or(model, "gpt-4o-mini-tts"@),
        r.format@ == chunk_body_format(format_of(text_or(format, "opus"@))),
        r.accept@ == (if format_of(text_or(format, "opus"@)) == AudioFormat::Mp3 {
            "audio/mpeg"@
        } else {
            "audio/ogg"@
        }),
        r.instructions is None,
{
    let name = or_default(format, "opus");
    let is_mp3 = parse_format(name.as_str()) == AudioFormat::Mp3;
    SpeechRequest {
        model: or_default(model, "gpt-4o-mini-tts"),
        input: text,
        voice: or_default(voice, "alloy"),
        format: String::from_str(
            if is_mp3 {
                "mp3"
            } else {
                "opus"
            },
        ),
        instructions: None,
        accept: String::from_str(
            if is_mp3 {
                "audio/mpeg"
            } else {
                "audio/ogg"
            },
        ),
    }
}

/// The model that serves an event stream: a speech-only model (one with `tts`
/// in its name) is replaced by the realtime model.
pub open spec fn event_stream_model(requested: Seq<char>) -> Seq<char> {
    if contains_text(requested, "tts"@) {
        "gpt-4o-realtime-preview"@
    } else {
        requested
    }
}

/// The upstream request of a pushed event stream. Voice defaults to `alloy`,
/// model to `gpt-4o-mini-tts`, format to `opus`; the format is passed on as given.
pub fn event_stream_request(
    text: String,
    voice: Option<String>,
    model: Option<String>,
    format: Option<String>,
) -> (r: ResponsesRequest)
    ensures
        r.input == text,
        r.voice@ == text_or(voice, "alloy"@),
        r.model@ == event_stream_model(text_or(model, "gpt-4o-mini-tts"@)),
        r.format@ == text_or(format, "opus"@),
{
    let requested = or_default(model, "gpt-4o-mini-tts");
    let model = if text_contains(requested.as_str(), "tts") {
        String::from_str("gpt-4o-realtime-preview")
    } else {
        requested
    };
    ResponsesRequest {
        model,
        voice: or_default(voice, "alloy"),
        format: or_default(format, "opus"),
        input: text,
    }
}

/// The upstream request for a finished file. Voice defaults to `alloy`, model
/// to `gpt-4o-mini-tts`, format to WAV; any format but MP3 and Opus is asked for as WAV.
pub fn file_request(
    text: String,
    voice: Option<String>,
    model: Option<String>,
    format: Option<String>,
    instructions: Option<String>,
) -> (r: SpeechRequest)
    ensures
        r.input == text,
        r.voice@ == text_or(voice, "alloy"@),
        r.model@ == text_or(model, "gpt-4o-mini-tts"@),
        r.format@ == file_body_format(format_of(text_or(format, "wav"@))),
        r.accept@ == file_accept(format_of(text_or(format, "wav"@))),
        r.instructions == sent_instructions(instructions),
{
    let name = or_default(format, "wav");
    let kind = parse_format(name.as_str());
    SpeechRequest {
        model: or_default(model, "gpt-4o-mini-tts"),
        input: text,
        voice: or_default(voice, "alloy"),
        format: String::from_str(
            match kind {
                AudioFormat::Mp3 => "mp3",
                AudioFormat::Opus => "opus",
                _ => "wav",
            },
        ),
        instructions: effective_instructions(instructions),
        accept: String::from_str(accept_for_file(kind)),
    }
}

/// File extension for a finished file: what the response's content type names,
/// else what was asked for, else `wav`.
pub open spec fn file_extension(content_type: Seq<char>, requested: Seq<char>) -> Seq<char> {
    if contains_text(content_type, "wav"@) {
        "wav"@
    } else if contains_text(content_type, "mpeg"@) || contains_text(content_type, "mp3"@) {
        "mp3"@
    } else if contains_text(content_type, "ogg"@) {
        "ogg"@
    } else if contains_text(content_type, "opus"@) {
        "opus"@
    } else if requested == "mp3"@ {
        "mp3"@
    } else if requested == "opus"@ {
        "opus"@
    } else {
        "wav"@
    }
}

/// Picks the file extension from the response's content type and the requested format.
pub fn extension_for(content_type: &str, requested: &str) -> (ext: &'static str)
    ensures
        ext@ == file_extension(content_type@, requested@),
{
    if text_contains(content_type, "wav") {
        "wav"
    } else if text_contains(content_type, "mpeg") || text_contains(content_type, "mp3") {
        "mp3"
    } else if text_contains(content_type, "ogg") {
        "ogg"
    } else if text_contains(content_type, "opus") {
        "opus"
    } else if same_text(requested, "mp3") {
        "mp3"
    } else if same_text(requested, "opus") {
        "opus"
    } else {
        "wav"
    }
}

} // verus!
