use tts_relay::request::{
    accept_for_file, chunk_stream_request, effective_instructions, event_stream_request,
    extension_for, file_request, mime_for_chunk_stream, mime_for_event_stream, mime_for_session,
    or_default, parse_format, session_speech_request, AudioFormat, RESPONSES_ENDPOINT,
    SPEECH_ENDPOINT,
};
use tts_relay::server::StreamingSession;
use tts_relay::upstream::{
    describe_read_failure, describe_rejection, describe_unreachable, status_is_success,
};

fn some(s: &str) -> Option<String> {
    Some(s.to_string())
}

#[test]
fn formats_are_told_apart_by_exact_name() {
    assert_eq!(parse_format("mp3"), AudioFormat::Mp3);
    assert_eq!(parse_format("wav"), AudioFormat::Wav);
    assert_eq!(parse_format("opus"), AudioFormat::Opus);
    assert_eq!(parse_format("webm"), AudioFormat::Other);
    assert_eq!(parse_format("MP3"), AudioFormat::Other);
    assert_eq!(parse_format(" mp3"), AudioFormat::Other);
    assert_eq!(parse_format(""), AudioFormat::Other);
}

#[test]
fn mime_tables_by_delivery_mode() {
    assert_eq!(mime_for_chunk_stream(AudioFormat::Mp3), "audio/mpeg");
    assert_eq!(mime_for_chunk_stream(AudioFormat::Wav), "audio/ogg; codecs=opus");
    assert_eq!(mime_for_chunk_stream(AudioFormat::Opus), "audio/ogg; codecs=opus");
    assert_eq!(mime_for_chunk_stream(AudioFormat::Other), "audio/ogg; codecs=opus");
    assert_eq!(mime_for_event_stream(AudioFormat::Mp3), "audio/mpeg");
    assert_eq!(mime_for_event_stream(AudioFormat::Wav), "audio/wav");
    assert_eq!(mime_for_event_stream(AudioFormat::Opus), "audio/ogg; codecs=opus");
    assert_eq!(mime_for_event_stream(AudioFormat::Other), "audio/ogg; codecs=opus");
    assert_eq!(mime_for_session(AudioFormat::Mp3), "audio/mpeg");
    assert_eq!(mime_for_session(AudioFormat::Wav), "audio/wav");
    assert_eq!(mime_for_session(AudioFormat::Opus), "audio/ogg");
    assert_eq!(mime_for_session(AudioFormat::Other), "audio/mpeg");
    assert_eq!(accept_for_file(AudioFormat::Mp3), "audio/mpeg");
    assert_eq!(accept_for_file(AudioFormat::Wav), "audio/wav");
    assert_eq!(accept_for_file(AudioFormat::Opus), "audio/ogg");
    assert_eq!(accept_for_file(AudioFormat::Other), "audio/wav");
}

#[test]
fn endpoints_are_fixed() {
    assert_eq!(SPEECH_ENDPOINT, "https://api.openai.com/v1/audio/speech");
    assert_eq!(RESPONSES_ENDPOINT, "https://api.openai.com/v1/responses");
}

#[test]
fn defaults_fill_missing_settings() {
    assert_eq!(or_default(None, "alloy"), "alloy");
    assert_eq!(or_default(some("nova"), "alloy"), "nova");
    assert_eq!(or_default(some(""), "alloy"), "");
}

#[test]
fn blank_instructions_are_left_out() {
    assert_eq!(effective_instructions(None), None);
    assert_eq!(effective_instructions(some("")), None);
    assert_eq!(effective_instructions(some(" \t\r\n")), None);
    assert_eq!(effective_instructions(some("\u{a0}\u{3000}")), None);
    assert_eq!(effective_instructions(some(" speak slowly ")), some(" speak slowly "));
    assert_eq!(effective_instructions(some("\u{200b}")), some("\u{200b}"));
}

#[test]
fn chunk_stream_request_defaults_to_opus() {
    let r = chunk_stream_request("hi".to_string(), None, None, None);
    assert_eq!(r.input, "hi");
    assert_eq!(r.voice, "alloy");
    assert_eq!(r.model, "gpt-4o-mini-tts");
    assert_eq!(r.format, "opus");
    assert_eq!(r.accept, "audio/ogg");
    assert_eq!(r.instructions, None);
    let wav = chunk_stream_request("hi".to_string(), some("nova"), some("tts-1"), some("wav"));
    assert_eq!(wav.voice, "nova");
    assert_eq!(wav.model, "tts-1");
    assert_eq!(wav.format, "opus");
    assert_eq!(wav.accept, "audio/ogg");
    let mp3 = chunk_stream_request("hi".to_string(), None, None, some("mp3"));
    assert_eq!(mp3.format, "mp3");
    assert_eq!(mp3.accept, "audio/mpeg");
}

#[test]
fn event_stream_request_replaces_speech_models() {
    let r = event_stream_request("hi".to_string(), None, None, None);
    assert_eq!(r.model, "gpt-4o-realtime-preview");
    assert_eq!(r.voice, "alloy");
    assert_eq!(r.format, "opus");
    assert_eq!(r.input, "hi");
    let custom =
        event_stream_request("hi".to_string(), some("nova"), some("gpt-4o-audio"), some("webm"));
    assert_eq!(custom.model, "gpt-4o-audio");
    assert_eq!(custom.voice, "nova");
    assert_eq!(custom.format, "webm");
    assert_eq!(
        event_stream_request("hi".to_string(), None, some("my-tts"), None).model,
        "gpt-4o-realtime-preview"
    );
    assert_eq!(event_stream_request("hi".to_string(), None, some("tt-s"), None).model, "tt-s");
    assert_eq!(event_stream_request("hi".to_string(), None, some(""), None).model, "");
}

#[test]
fn file_request_defaults_to_wav() {
    let r = file_request("hi".to_string(), None, None, None, some("  "));
    assert_eq!(r.format, "wav");
    assert_eq!(r.accept, "audio/wav");
    assert_eq!(r.voice, "alloy");
    assert_eq!(r.model, "gpt-4o-mini-tts");
    assert_eq!(r.instructions, None);
    let opus = file_request("hi".to_string(), None, None, some("opus"), some("cheerful"));
    assert_eq!(opus.format, "opus");
    assert_eq!(opus.accept, "audio/ogg");
    assert_eq!(opus.instructions, some("cheerful"));
    let mp3 = file_request("hi".to_string(), None, None, some("mp3"), None);
    assert_eq!((mp3.format.as_str(), mp3.accept.as_str()), ("mp3", "audio/mpeg"));
    let other = file_request("hi".to_string(), None, None, some("flac"), None);
    assert_eq!((other.format.as_str(), other.accept.as_str()), ("wav", "audio/wav"));
}

#[test]
fn session_request_passes_the_format_on() {
    let session = StreamingSession {
        text: "hello".to_string(),
        voice: "nova".to_string(),
        model: "tts-1".to_string(),
        format: "flac".to_string(),
        api_key: "k".to_string(),
        instructions: some("whisper"),
        cancel: false,
        created_at: 0,
        started: false,
    };
    let r = session_speech_request(&session);
    assert_eq!(r.format, "flac");
    assert_eq!(r.accept, "audio/mpeg");
    assert_eq!(r.input, "hello");
    assert_eq!(r.voice, "nova");
    assert_eq!(r.model, "tts-1");
    assert_eq!(r.instructions, some("whisper"));
}

#[test]
fn extension_follows_content_type_before_request() {
    assert_eq!(extension_for("audio/wav", "mp3"), "wav");
    assert_eq!(extension_for("audio/x-wav; rate=1", "opus"), "wav");
    assert_eq!(extension_for("audio/mpeg", "wav"), "mp3");
    assert_eq!(extension_for("audio/mp3", "wav"), "mp3");
    assert_eq!(extension_for("audio/ogg; codecs=opus", "wav"), "ogg");
    assert_eq!(extension_for("audio/opus", "wav"), "opus");
    assert_eq!(extension_for("", "mp3"), "mp3");
    assert_eq!(extension_for("application/octet-stream", "opus"), "opus");
    assert_eq!(extension_for("application/octet-stream", "flac"), "wav");
    assert_eq!(extension_for("AUDIO/WAV", "mp3"), "mp3");
}

#[test]
fn failure_wording() {
    assert_eq!(describe_rejection(403, "bad key"), "upstream error 403: bad key");
    assert_eq!(describe_rejection(0, ""), "upstream error 0: ");
    assert_eq!(describe_rejection(65535, "x"), "upstream error 65535: x");
    assert_eq!(describe_unreachable("timed out"), "request failed: timed out");
    assert_eq!(describe_read_failure("eof"), "stream error: eof");
}

#[test]
fn success_is_the_2xx_range() {
    assert!(status_is_success(200));
    assert!(status_is_success(204));
    assert!(status_is_success(299));
    assert!(!status_is_success(199));
    assert!(!status_is_success(300));
    assert!(!status_is_success(403));
    assert!(!status_is_success(502));
}
