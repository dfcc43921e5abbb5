use tts_relay::sse::{
    consume_leading_newlines, extract_data_from_text, extract_sse_data, find_sse_event_boundary,
};

#[test]
fn boundary_after_first_blank_line() {
    assert_eq!(find_sse_event_boundary(b"data: a\n\ndata: b"), Some(9));
    assert_eq!(find_sse_event_boundary(b"data: a\r\n\r\nrest"), Some(11));
}

#[test]
fn no_boundary_in_partial_event() {
    assert_eq!(find_sse_event_boundary(b""), None);
    assert_eq!(find_sse_event_boundary(b"\n"), None);
    assert_eq!(find_sse_event_boundary(b"data: a\n"), None);
    assert_eq!(find_sse_event_boundary(b"data: a\r\n\r"), None);
}

#[test]
fn boundary_prefers_leftmost_separator() {
    assert_eq!(find_sse_event_boundary(b"a\n\nb\n\n"), Some(3));
    assert_eq!(find_sse_event_boundary(b"\r\n\n\n"), Some(3));
    assert_eq!(find_sse_event_boundary(b"a\r\n\r\n\n\n"), Some(5));
}

#[test]
fn leading_newlines_are_stripped_in_place() {
    let mut buf = b"\n\r\n\rdata: x\n".to_vec();
    assert_eq!(consume_leading_newlines(&mut buf), 4);
    assert_eq!(buf, b"data: x\n".to_vec());
    let mut plain = b"data".to_vec();
    assert_eq!(consume_leading_newlines(&mut plain), 0);
    assert_eq!(plain, b"data".to_vec());
    let mut only = b"\n\n".to_vec();
    assert_eq!(consume_leading_newlines(&mut only), 2);
    assert!(only.is_empty());
}

#[test]
fn last_data_line_is_kept() {
    assert_eq!(extract_sse_data(b"data: one\ndata: two\n\n"), Some("two".to_string()));
    assert_eq!(extract_data_from_text("data: one\ndata: two"), Some("two".to_string()));
}

#[test]
fn comment_only_event_has_no_data() {
    assert_eq!(extract_sse_data(b": keep-alive\n\n"), None);
    assert_eq!(extract_sse_data(b""), None);
    assert_eq!(extract_sse_data(b"event: ping\nid: 7\n\n"), None);
}

#[test]
fn data_payload_is_trimmed_at_both_ends() {
    assert_eq!(extract_sse_data(b"data:   [DONE]  \n\n"), Some("[DONE]".to_string()));
    assert_eq!(extract_data_from_text("data:   [DONE]  "), Some("[DONE]".to_string()));
    assert_eq!(extract_sse_data(b"  data:   {\"a\": 1}  \r\n\r\n"), Some("{\"a\": 1}".to_string()));
    assert_eq!(extract_sse_data(b"data:x\r"), Some("x".to_string()));
    assert_eq!(extract_sse_data(b"data: a  b \t\n"), Some("a  b".to_string()));
    assert_eq!(extract_sse_data("data:\u{a0}x\u{3000}\n".as_bytes()), Some("x".to_string()));
    assert_eq!(extract_sse_data(b"data:"), Some(String::new()));
    assert_eq!(extract_sse_data(b"data:   \n"), Some(String::new()));
    assert_eq!(extract_sse_data(b"xdata: y\n"), None);
}

#[test]
fn malformed_bytes_are_replaced() {
    assert_eq!(extract_sse_data(b"data: a\xffb\n\n"), Some("a\u{fffd}b".to_string()));
    assert_eq!(extract_sse_data("data: \u{3000}h\u{e9}\n".as_bytes()), Some("h\u{e9}".to_string()));
}

#[test]
fn boundary_ignores_the_partial_event_behind_it() {
    let event = b"data: {\"type\":\"x\"}\n\n".to_vec();
    let alone = find_sse_event_boundary(&event);
    assert_eq!(alone, Some(event.len()));
    for partial in [&b""[..], b"d", b"data: {\"ty", b"\n", b"\r\n\r", b"data: z\n\n"] {
        let mut buf = event.clone();
        buf.extend_from_slice(partial);
        assert_eq!(find_sse_event_boundary(&buf), Some(event.len()));
    }
}

#[test]
fn boundary_needs_both_halves_of_a_crlf_pair() {
    assert_eq!(find_sse_event_boundary(b"a\r\n\rb\n"), None);
    assert_eq!(find_sse_event_boundary(b"a\n\r\nb"), None);
    assert_eq!(find_sse_event_boundary(b"\n\n"), Some(2));
    assert_eq!(find_sse_event_boundary(b"\r\n\r\n"), Some(4));
}

#[test]
fn drain_loop_carves_events_one_by_one() {
    let mut buf = b"data: 1\n\n\r\n: ping\n\ndata: 2\r\n\r\ndata: 3".to_vec();
    let mut seen: Vec<Option<String>> = Vec::new();
    while let Some(pos) = find_sse_event_boundary(&buf) {
        let rest = buf.split_off(pos);
        let event = std::mem::replace(&mut buf, rest);
        consume_leading_newlines(&mut buf);
        seen.push(extract_sse_data(&event));
    }
    assert_eq!(seen, vec![Some("1".to_string()), None, Some("2".to_string())]);
    assert_eq!(buf, b"data: 3".to_vec());
}

#[test]
fn data_line_after_other_lines_wins() {
    assert_eq!(
        extract_sse_data(b"event: delta\ndata: first\nid: 1\ndata: second\nretry: 5\n\n"),
        Some("second".to_string())
    );
    assert_eq!(extract_sse_data(b"data: kept\n: comment\n\n"), Some("kept".to_string()));
}
