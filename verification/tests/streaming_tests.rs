use platformed_llm::streaming::{parse_sse_chunk, parse_sse_event, parse_sse_line, SseEvent};

#[test]
fn test_sse_event_creation() {
    let event = SseEvent::new("test data".to_string());
    assert_eq!(event.data, "test data");
    assert!(event.event_type.is_none());

    let event_with_type = SseEvent::with_type("message".to_string(), "test data".to_string());
    assert_eq!(event_with_type.event_type, Some("message".to_string()));
    assert_eq!(event_with_type.data, "test data");
}

#[test]
fn test_done_event() {
    let done_event = SseEvent::new("[DONE]".to_string());
    assert!(done_event.is_done());

    let normal_event = SseEvent::new("normal data".to_string());
    assert!(!normal_event.is_done());
}

#[test]
fn test_done_event_unicode_whitespace() {
    let padded = SseEvent::new("\u{00A0}[DONE]\u{2003}\n".to_string());
    assert!(padded.is_done());
}

#[test]
fn test_parse_sse_line() {
    let data_line = "data: {\"message\": \"hello\"}";
    let event = parse_sse_line(data_line).unwrap();
    assert_eq!(event.data, "{\"message\": \"hello\"}");

    let event_line = "event: message";
    let event = parse_sse_line(event_line).unwrap();
    assert_eq!(event.event_type, Some("message".to_string()));
}

#[test]
fn test_parse_sse_event() {
    let lines = vec![
        "event: message".to_string(),
        "data: first line".to_string(),
        "data: second line".to_string(),
        "id: 123".to_string(),
    ];

    let event = parse_sse_event(&lines).unwrap();
    assert_eq!(event.event_type, Some("message".to_string()));
    assert_eq!(event.data, "first line\nsecond line");
    assert_eq!(event.id, Some("123".to_string()));
}

#[test]
fn test_parse_sse_chunk() {
    let chunk = b"data: test message 1\n\ndata: test message 2\n\n";
    let events = parse_sse_chunk(chunk).unwrap();
    assert_eq!(events.len(), 2);
    assert_eq!(events[0].data, "test message 1");
    assert_eq!(events[1].data, "test message 2");
}
