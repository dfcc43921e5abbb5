use tts_relay::endpoint::{
    not_found_reply, route_request, session_not_found_reply, upstream_reply, CopyStep, Route,
    StreamCopy, StreamOpening,
};
use tts_relay::server::TtsStreamingServer;
use tts_relay::upstream::{UpstreamPull, UpstreamResponse};

fn server_with(format: &str) -> (TtsStreamingServer, String) {
    let mut server = TtsStreamingServer::new(9000);
    let id = server.create_session(
        "hello world".to_string(),
        "alloy".to_string(),
        "gpt-4o-mini-tts".to_string(),
        format.to_string(),
        "SECRET-REDACTED".to_string(),
        Some("  ".to_string()),
        0,
    );
    (server, id)
}

#[test]
fn only_get_on_the_stream_path_is_routed() {
    assert_eq!(
        route_request("GET", "/stream/abc"),
        Route::Stream { session_id: "abc".to_string() }
    );
    assert_eq!(route_request("GET", "/stream/"), Route::Stream { session_id: String::new() });
    assert_eq!(
        route_request("GET", "/stream/a/b"),
        Route::Stream { session_id: "a/b".to_string() }
    );
    assert_eq!(route_request("POST", "/stream/abc"), Route::NotFound);
    assert_eq!(route_request("get", "/stream/abc"), Route::NotFound);
    assert_eq!(route_request("GET", "/stream"), Route::NotFound);
    assert_eq!(route_request("GET", "/"), Route::NotFound);
    assert_eq!(route_request("GET", "/other/stream/abc"), Route::NotFound);
}

#[test]
fn fixed_replies_are_404() {
    let plain = not_found_reply();
    assert_eq!((plain.status, plain.body.as_str(), plain.streamed), (404, "Not Found", false));
    let missing = session_not_found_reply();
    assert_eq!(
        (missing.status, missing.body.as_str(), missing.streamed),
        (404, "Session not found", false)
    );
}

#[test]
fn mp3_session_streams_upstream_bytes_as_audio_mpeg() {
    let (mut server, id) = server_with("mp3");
    let path = format!("/stream/{}", id);
    let session_id = match route_request("GET", &path) {
        Route::Stream { session_id } => session_id,
        Route::NotFound => panic!("the stream path was not routed"),
    };
    assert_eq!(session_id, id);
    let format = match server.open_stream(&session_id) {
        StreamOpening::Upstream { request, api_key, format } => {
            assert_eq!(request.model, "gpt-4o-mini-tts");
            assert_eq!(request.input, "hello world");
            assert_eq!(request.voice, "alloy");
            assert_eq!(request.format, "mp3");
            assert_eq!(request.accept, "audio/mpeg");
            assert_eq!(request.instructions, None);
            assert_eq!(api_key, "SECRET-REDACTED");
            format
        }
        StreamOpening::NotFound => panic!("the session was not found"),
    };
    assert!(server.session(&id).unwrap().started);
    let head = upstream_reply(&format, &UpstreamResponse::Accepted);
    assert_eq!(head.status, 200);
    assert_eq!(head.content_type, Some("audio/mpeg".to_string()));
    assert!(head.streamed);
    assert!(head.body.is_empty());

    let mut copy = StreamCopy { session_id: id.clone(), cleaned: false };
    let mut body: Vec<u8> = Vec::new();
    assert!(!server.should_stop(&copy));
    match server.copy_step(&mut copy, UpstreamPull::Chunk(b"ABC".to_vec())) {
        CopyStep::Forward(bytes) => body.extend(bytes),
        other => panic!("expected bytes to forward, got {:?}", other),
    }
    assert!(server.contains(&id));
    assert!(!server.should_stop(&copy));
    assert_eq!(server.copy_step(&mut copy, UpstreamPull::Exhausted), CopyStep::Finish);
    assert_eq!(body, b"ABC".to_vec());
    assert!(copy.cleaned);
    assert!(!server.contains(&id));
}

#[test]
fn unknown_session_is_not_opened() {
    let (mut server, id) = server_with("mp3");
    assert_eq!(server.open_stream("no-such-session"), StreamOpening::NotFound);
    assert!(!server.session(&id).unwrap().started);
}

#[test]
fn stopped_session_is_not_found_afterwards() {
    let (mut server, id) = server_with("mp3");
    assert!(server.stop_session(&id));
    assert_eq!(server.open_stream(&id), StreamOpening::NotFound);
    assert_eq!(session_not_found_reply().status, 404);
}

#[test]
fn upstream_failure_becomes_a_502() {
    let rejected = upstream_reply(
        "mp3",
        &UpstreamResponse::Rejected { status: 401, body: "invalid api key".to_string() },
    );
    assert_eq!(rejected.status, 502);
    assert_eq!(rejected.body, "upstream error 401: invalid api key");
    assert_eq!(rejected.content_type, None);
    assert!(!rejected.streamed);
    let unreachable =
        upstream_reply("mp3", &UpstreamResponse::Unreachable { reason: "refused".to_string() });
    assert_eq!(unreachable.status, 502);
    assert_eq!(unreachable.body, "request failed: refused");
    assert!(!unreachable.streamed);
}

#[test]
fn content_type_follows_the_session_format() {
    for (format, mime) in [
        ("mp3", "audio/mpeg"),
        ("wav", "audio/wav"),
        ("opus", "audio/ogg"),
        ("flac", "audio/mpeg"),
        ("", "audio/mpeg"),
        ("MP3", "audio/mpeg"),
    ] {
        let head = upstream_reply(format, &UpstreamResponse::Accepted);
        assert_eq!(head.content_type, Some(mime.to_string()));
        assert_eq!(head.status, 200);
    }
}

#[test]
fn copy_stops_once_the_session_was_stopped() {
    let (mut server, id) = server_with("wav");
    server.open_stream(&id);
    let mut copy = StreamCopy { session_id: id.clone(), cleaned: false };
    assert!(!server.should_stop(&copy));
    assert!(server.stop_session(&id));
    assert!(server.should_stop(&copy));
    assert_eq!(server.copy_step(&mut copy, UpstreamPull::Cancelled), CopyStep::Finish);
    assert!(copy.cleaned);
}

#[test]
fn copy_cleans_up_exactly_once() {
    let (mut server, id) = server_with("wav");
    server.open_stream(&id);
    let mut copy = StreamCopy { session_id: id.clone(), cleaned: false };
    assert_eq!(
        server.copy_step(&mut copy, UpstreamPull::Failed { reason: "reset".to_string() }),
        CopyStep::Abort { reason: "reset".to_string() }
    );
    assert!(copy.cleaned);
    assert!(!server.contains(&id));
    let stored = server.session(&id);
    assert_eq!(stored, None);
    let mut other = TtsStreamingServer::new(1);
    let again = other.create_session(
        "t".to_string(),
        "v".to_string(),
        "m".to_string(),
        "mp3".to_string(),
        "k".to_string(),
        None,
        0,
    );
    let mut done = StreamCopy { session_id: again.clone(), cleaned: true };
    assert_eq!(other.copy_step(&mut done, UpstreamPull::Exhausted), CopyStep::Finish);
    assert!(other.contains(&again));
}

#[test]
fn flagged_session_asks_its_copy_to_stop() {
    let (mut server, id) = server_with("mp3");
    let mut flagged = server.session(&id).unwrap();
    flagged.cancel = true;
    server.insert_session(id.clone(), flagged);
    let copy = StreamCopy { session_id: id, cleaned: false };
    assert!(server.should_stop(&copy));
}
