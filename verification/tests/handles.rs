use tts_relay::handles::{openai_stream_stop, StreamHandles};

#[test]
fn ids_count_up_from_one() {
    let mut handles: StreamHandles<&'static str> = StreamHandles::new();
    assert_eq!(handles.count(), 0);
    assert_eq!(handles.register("a"), Some(1));
    assert_eq!(handles.register("b"), Some(2));
    assert_eq!(handles.take(1), Some("a"));
    assert_eq!(handles.register("c"), Some(3));
    assert_eq!(handles.count(), 2);
}

#[test]
fn stopping_hands_back_the_stopper_once() {
    let mut handles: StreamHandles<String> = StreamHandles::new();
    let id = handles.register("stop me".to_string()).unwrap();
    assert_eq!(openai_stream_stop(&mut handles, id + 1), None);
    assert_eq!(openai_stream_stop(&mut handles, 0), None);
    assert_eq!(openai_stream_stop(&mut handles, id), Some("stop me".to_string()));
    assert_eq!(openai_stream_stop(&mut handles, id), None);
    assert_eq!(handles.count(), 0);
}
