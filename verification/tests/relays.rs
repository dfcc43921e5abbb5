use tts_relay::relay::{can_encode, DirectRelay, RelayEvent, RelayPhase, ResponsesRelay};
use tts_relay::request::AudioFormat;
use tts_relay::upstream::{UpstreamPull, UpstreamResponse};

fn chunk(bytes: &[u8]) -> UpstreamPull {
    UpstreamPull::Chunk(bytes.to_vec())
}

#[test]
fn direct_relay_reports_a_rejection_and_sends_no_chunk() {
    let mut relay = DirectRelay::new(AudioFormat::Opus);
    let event = relay.on_response(UpstreamResponse::Rejected {
        status: 403,
        body: "bad key".to_string(),
    });
    match event {
        Some(RelayEvent::Error { message }) => {
            assert!(message.contains("403"));
            assert!(message.contains("bad key"));
            assert_eq!(message, "upstream error 403: bad key");
        }
        other => panic!("expected an error event, got {:?}", other),
    }
    assert_eq!(relay.current_phase(), RelayPhase::Finished);
    assert_eq!(relay.on_pull(chunk(b"ABC")), None);
    assert_eq!(relay.on_pull(UpstreamPull::Exhausted), None);
    assert_eq!(relay.on_response(UpstreamResponse::Accepted), None);
}

#[test]
fn direct_relay_encodes_each_chunk() {
    let mut relay = DirectRelay::new(AudioFormat::Mp3);
    assert_eq!(
        relay.on_response(UpstreamResponse::Accepted),
        Some(RelayEvent::Start { mime: "audio/mpeg".to_string() })
    );
    assert_eq!(relay.current_phase(), RelayPhase::Streaming);
    assert_eq!(relay.on_pull(chunk(b"ABC")), Some(RelayEvent::Chunk { data: "QUJD".to_string() }));
    assert_eq!(relay.on_pull(chunk(b"a")), Some(RelayEvent::Chunk { data: "YQ==".to_string() }));
    assert_eq!(relay.on_pull(chunk(b"")), Some(RelayEvent::Chunk { data: String::new() }));
    assert_eq!(
        relay.on_pull(chunk(&[0xfb, 0xff, 0xfe])),
        Some(RelayEvent::Chunk { data: "+//+".to_string() })
    );
    assert_eq!(relay.current_phase(), RelayPhase::Streaming);
    assert_eq!(relay.on_pull(UpstreamPull::Exhausted), Some(RelayEvent::End));
    assert_eq!(relay.current_phase(), RelayPhase::Finished);
    assert_eq!(relay.on_pull(chunk(b"late")), None);
}

#[test]
fn direct_relay_announces_opus_for_anything_but_mp3() {
    for format in [AudioFormat::Opus, AudioFormat::Wav, AudioFormat::Other] {
        let mut relay = DirectRelay::new(format);
        assert_eq!(
            relay.on_response(UpstreamResponse::Accepted),
            Some(RelayEvent::Start { mime: "audio/ogg; codecs=opus".to_string() })
        );
    }
}

#[test]
fn direct_relay_stops_on_cancellation() {
    let mut relay = DirectRelay::new(AudioFormat::Opus);
    relay.on_response(UpstreamResponse::Accepted);
    assert_eq!(relay.on_pull(UpstreamPull::Cancelled), Some(RelayEvent::Cancelled));
    assert_eq!(relay.current_phase(), RelayPhase::Finished);
    assert_eq!(relay.on_pull(UpstreamPull::Cancelled), None);
}

#[test]
fn direct_relay_reports_a_read_failure() {
    let mut relay = DirectRelay::new(AudioFormat::Opus);
    relay.on_response(UpstreamResponse::Accepted);
    assert_eq!(
        relay.on_pull(UpstreamPull::Failed { reason: "connection reset".to_string() }),
        Some(RelayEvent::Error { message: "stream error: connection reset".to_string() })
    );
    assert_eq!(relay.current_phase(), RelayPhase::Finished);
}

#[test]
fn relay_reports_an_unreachable_upstream() {
    let mut direct = DirectRelay::new(AudioFormat::Opus);
    assert_eq!(
        direct.on_response(UpstreamResponse::Unreachable { reason: "dns".to_string() }),
        Some(RelayEvent::Error { message: "request failed: dns".to_string() })
    );
    assert_eq!(direct.current_phase(), RelayPhase::Finished);
    let mut events = ResponsesRelay::new(AudioFormat::Opus);
    assert_eq!(
        events.on_response(UpstreamResponse::Unreachable { reason: "dns".to_string() }),
        Some(RelayEvent::Error { message: "request failed: dns".to_string() })
    );
    assert!(events.on_pull(chunk(b"data: [DONE]\n\n")).is_empty());
}

#[test]
fn responses_relay_emits_start_chunk_end_in_order() {
    let mut relay = ResponsesRelay::new(AudioFormat::Mp3);
    let mut seen: Vec<RelayEvent> = Vec::new();
    seen.extend(relay.on_response(UpstreamResponse::Accepted));
    seen.extend(relay.on_pull(chunk(
        b"data: {\"type\":\"response.output_audio.delta\",\"delta\":\"QUJD\"}\n\n",
    )));
    seen.extend(relay.on_pull(chunk(b"data: {\"type\":\"response.completed\"}\n\n")));
    assert_eq!(
        seen,
        vec![
            RelayEvent::Start { mime: "audio/mpeg".to_string() },
            RelayEvent::Chunk { data: "QUJD".to_string() },
            RelayEvent::End,
        ]
    );
    assert_eq!(relay.current_phase(), RelayPhase::Finished);
    assert!(relay.on_pull(UpstreamPull::Exhausted).is_empty());
}

#[test]
fn responses_relay_joins_events_split_across_chunks() {
    let mut relay = ResponsesRelay::new(AudioFormat::Opus);
    assert_eq!(
        relay.on_response(UpstreamResponse::Accepted),
        Some(RelayEvent::Start { mime: "audio/ogg; codecs=opus".to_string() })
    );
    assert!(relay.on_pull(chunk(b"data: {\"type\":\"response.output_")).is_empty());
    assert!(relay.on_pull(chunk(b"audio.delta\",\"delta\":\"QQ==\"}\n")).is_empty());
    assert_eq!(
        relay.on_pull(chunk(b"\n\n\ndata: {\"type\":\"response.output_audio.delta\",\"audio\":\"Qg==\"}\r\n\r\ndata: {\"ty")),
        vec![
            RelayEvent::Chunk { data: "QQ==".to_string() },
            RelayEvent::Chunk { data: "Qg==".to_string() },
        ]
    );
    assert_eq!(relay.current_phase(), RelayPhase::Streaming);
    assert_eq!(relay.on_pull(UpstreamPull::Exhausted), vec![RelayEvent::End]);
}

#[test]
fn responses_relay_stops_at_the_done_marker() {
    let mut relay = ResponsesRelay::new(AudioFormat::Wav);
    assert_eq!(
        relay.on_response(UpstreamResponse::Accepted),
        Some(RelayEvent::Start { mime: "audio/wav".to_string() })
    );
    let events = relay.on_pull(chunk(
        b": hello\n\ndata: {\"type\":\"response.created\"}\n\ndata: {\"type\":\"response.output_audio.delta\",\"delta\":\"QUJD\"}\n\ndata: [DONE]\n\ndata: {\"type\":\"response.output_audio.delta\",\"delta\":\"WFla\"}\n\n",
    ));
    assert_eq!(events, vec![RelayEvent::Chunk { data: "QUJD".to_string() }, RelayEvent::End]);
    assert_eq!(relay.current_phase(), RelayPhase::Finished);
    assert!(relay.on_pull(chunk(b"data: [DONE]\n\n")).is_empty());
}

#[test]
fn responses_relay_ends_cancels_and_fails() {
    let mut ended = ResponsesRelay::new(AudioFormat::Opus);
    ended.on_response(UpstreamResponse::Accepted);
    assert_eq!(ended.on_pull(UpstreamPull::Exhausted), vec![RelayEvent::End]);

    let mut cancelled = ResponsesRelay::new(AudioFormat::Opus);
    cancelled.on_response(UpstreamResponse::Accepted);
    cancelled.on_pull(chunk(b"data: {\"type\":\"response.output_audio.delta\",\"delta\":\"QUJD\"}\n"));
    assert_eq!(cancelled.on_pull(UpstreamPull::Cancelled), vec![RelayEvent::Cancelled]);
    assert_eq!(cancelled.current_phase(), RelayPhase::Finished);

    let mut failed = ResponsesRelay::new(AudioFormat::Opus);
    failed.on_response(UpstreamResponse::Accepted);
    assert_eq!(
        failed.on_pull(UpstreamPull::Failed { reason: "timeout".to_string() }),
        vec![RelayEvent::Error { message: "stream error: timeout".to_string() }]
    );
}

#[test]
fn responses_relay_reports_a_rejection() {
    let mut relay = ResponsesRelay::new(AudioFormat::Opus);
    assert_eq!(
        relay.on_response(UpstreamResponse::Rejected { status: 500, body: String::new() }),
        Some(RelayEvent::Error { message: "upstream error 500: ".to_string() })
    );
    assert_eq!(relay.current_phase(), RelayPhase::Finished);
}

#[test]
fn events_know_their_names() {
    assert_eq!(RelayEvent::Start { mime: String::new() }.name(), "tts:stream:start");
    assert_eq!(RelayEvent::Chunk { data: String::new() }.name(), "tts:stream:chunk");
    assert_eq!(RelayEvent::End.name(), "tts:stream:end");
    assert_eq!(RelayEvent::Cancelled.name(), "tts:stream:cancelled");
    assert_eq!(RelayEvent::Error { message: String::new() }.name(), "tts:stream:error");
    assert!(!RelayEvent::Start { mime: String::new() }.is_terminal());
    assert!(!RelayEvent::Chunk { data: String::new() }.is_terminal());
    assert!(RelayEvent::End.is_terminal());
    assert!(RelayEvent::Cancelled.is_terminal());
    assert!(RelayEvent::Error { message: String::new() }.is_terminal());
}

#[test]
fn chunks_that_exist_can_be_encoded() {
    assert!(can_encode(0));
    assert!(can_encode(1));
    assert!(can_encode(3));
    assert!(can_encode(1 << 20));
    let limit = (isize::MAX as usize / 4) * 3;
    assert!(can_encode(limit));
    assert!(!can_encode(limit + 1));
    assert!(!can_encode(usize::MAX));
}

fn events_of(parts: &[&[u8]]) -> Vec<RelayEvent> {
    let mut relay = ResponsesRelay::new(AudioFormat::Opus);
    let mut seen: Vec<RelayEvent> = Vec::new();
    seen.extend(relay.on_response(UpstreamResponse::Accepted));
    for part in parts {
        seen.extend(relay.on_pull(chunk(part)));
    }
    seen.extend(relay.on_pull(UpstreamPull::Exhausted));
    seen
}

#[test]
fn events_do_not_depend_on_the_chunk_split() {
    let body: &[u8] = b": hello\n\ndata: {\"type\":\"response.output_audio.delta\",\"delta\":\"QQ==\"}\r\n\r\n\n\r\ndata: {\"type\":\"x\"}\n\ndata:  {\"type\":\"response.output_audio.delta\",\"audio\":\"Qg==\"} \n\n\ndata: [DONE]\n\ndata: {\"type\":\"response.output_audio.delta\",\"delta\":\"Qw==\"}\n\n";
    let whole = events_of(&[body]);
    assert_eq!(
        whole,
        vec![
            RelayEvent::Start { mime: "audio/ogg; codecs=opus".to_string() },
            RelayEvent::Chunk { data: "QQ==".to_string() },
            RelayEvent::Chunk { data: "Qg==".to_string() },
            RelayEvent::End,
        ]
    );
    for at in 0..=body.len() {
        assert_eq!(events_of(&[&body[..at], &body[at..]]), whole, "split at {}", at);
    }
    for at in (0..body.len()).step_by(7) {
        for then in (at..=body.len()).step_by(5) {
            let parts = [&body[..at], &body[at..then], &body[then..]];
            assert_eq!(events_of(&parts), whole, "split at {} and {}", at, then);
        }
    }
}
