use platformed_llm::sse::{SseEvent, SseStream};

fn feed_chunks(chunks: &[&[u8]]) -> (Vec<SseEvent>, bool, bool) {
    // Returns the events parsed, whether parsing failed, and whether the
    // input ended cleanly.
    let mut stream = SseStream::new();
    let mut failed = false;
    for chunk in chunks {
        if stream.parse_buffer(chunk).is_err() {
            failed = true;
        }
    }
    let mut events = Vec::new();
    while let Some(e) = stream.pop() {
        events.push(e);
    }
    let clean = stream.end_of_input().is_ok();
    (events, failed, clean)
}

#[test]
fn test_sse_stream_complete_events() {
    let (events, failed, clean) = feed_chunks(&[b"data: Hello\n\ndata: World\n\n"]);
    assert!(!failed);
    assert!(clean);
    assert_eq!(events.len(), 2);
    assert_eq!(events[0].data, "Hello");
    assert_eq!(events[1].data, "World");
}

#[test]
fn test_sse_stream_split_events() {
    let (events, failed, clean) =
        feed_chunks(&[b"data: Hel", b"lo World\n\ndata: ", b"Second\n\n"]);
    assert!(!failed);
    assert!(clean);
    assert_eq!(events.len(), 2);
    assert_eq!(events[0].data, "Hello World");
    assert_eq!(events[1].data, "Second");
}

#[test]
fn test_sse_stream_multiline() {
    let (events, failed, _clean) = feed_chunks(&[b"data: Line 1\ndata: Line 2\n\n"]);
    assert!(!failed);
    assert_eq!(events.len(), 1);
    assert_eq!(events[0].data, "Line 1\nLine 2");
}

#[test]
fn test_sse_stream_with_fields() {
    let (events, failed, _clean) = feed_chunks(&[b"event: custom\ndata: Test\nid: 123\n\n"]);
    assert!(!failed);
    assert_eq!(events.len(), 1);
    assert_eq!(events[0].event_type, "custom".to_string());
    assert_eq!(events[0].data, "Test");
    assert_eq!(events[0].id, "123".to_string());
}

#[test]
fn test_sse_stream_utf8_boundary() {
    // Test UTF-8 character split across chunk boundaries
    // Using Euro symbol (three bytes in UTF-8: E2 82 AC)
    let euro_bytes = "€".as_bytes();

    let first: Vec<u8> = [b"data: Price: ".as_slice(), &euro_bytes[..2]].concat();
    let second: Vec<u8> = [&euro_bytes[2..], b"100\n\n".as_slice()].concat();

    let (events, failed, clean) = feed_chunks(&[&first, &second]);
    assert!(!failed);
    assert!(clean);
    assert_eq!(events.len(), 1);
    assert_eq!(events[0].data, "Price: €100");
}

#[test]
fn test_sse_stream_invalid_utf8_error() {
    // Invalid UTF-8 in a complete event properly returns an error.
    let (_events, failed, clean) =
        feed_chunks(&[b"data: Valid start \xFF\xFE invalid bytes\n\n"]);
    assert!(failed);
    assert!(!clean);
}

#[test]
fn test_line_ending_variations() {
    let test_cases: Vec<(&str, &[u8], Vec<&str>)> = vec![
        (
            "Unix LF",
            b"data: event1\n\ndata: event2\n\n",
            vec!["event1", "event2"],
        ),
        (
            "Windows CRLF",
            b"data: event1\r\n\r\ndata: event2\r\n\r\n",
            vec!["event1", "event2"],
        ),
        (
            "Classic Mac CR",
            b"data: event1\r\rdata: event2\r\r",
            vec!["event1", "event2"],
        ),
        (
            "Mixed LF first",
            b"data: event1\n\ndata: event2\r\n\r\n",
            vec!["event1", "event2"],
        ),
        (
            "Mixed CRLF first",
            b"data: event1\r\n\r\ndata: event2\n\n",
            vec!["event1", "event2"],
        ),
        ("Single event LF", b"data: single\n\n", vec!["single"]),
        ("Single event CRLF", b"data: single\r\n\r\n", vec!["single"]),
    ];

    for (test_name, data, expected) in test_cases {
        let (events, failed, _clean) = feed_chunks(&[data]);
        assert!(!failed, "unexpected failure in {test_name}");
        let received: Vec<String> = events.into_iter().map(|e| e.data).collect();
        assert_eq!(
            received, expected,
            "Test '{test_name}' failed. Expected: {expected:?}, Got: {received:?}"
        );
    }
}

#[test]
fn test_buffer_boundary_splitting() {
    // Case 1: CRLF split across boundaries
    let (events, failed, clean) =
        feed_chunks(&[b"data: event1\r", b"\n\r\ndata: event2\r\n\r\n"]);
    assert!(!failed);
    assert!(clean);
    assert_eq!(events.len(), 2);
    assert_eq!(events[0].data, "event1");
    assert_eq!(events[1].data, "event2");

    // Case 2: LF split across boundaries
    let (events, failed, clean) = feed_chunks(&[b"data: event1\n", b"\ndata: event2\n\n"]);
    assert!(!failed);
    assert!(clean);
    assert_eq!(events.len(), 2);
    assert_eq!(events[0].data, "event1");
    assert_eq!(events[1].data, "event2");

    // Case 3: CRLF pair followed by a split CRLF pair
    let (events, failed, clean) =
        feed_chunks(&[b"data: event1\r\n", b"\r\ndata: event2\r\n\r\n"]);
    assert!(!failed);
    assert!(clean);
    assert_eq!(events.len(), 2);
    assert_eq!(events[0].data, "event1");
    assert_eq!(events[1].data, "event2");
}

#[test]
fn test_robust_separator_precedence() {
    // Case 1: Mixed separators across three events
    let (events, failed, clean) =
        feed_chunks(&[b"data: event1\r\n\r\ndata: event2\n\ndata: event3\r\r"]);
    assert!(!failed);
    assert!(clean);
    assert_eq!(events.len(), 3);
    assert_eq!(events[0].data, "event1");
    assert_eq!(events[1].data, "event2");
    assert_eq!(events[2].data, "event3");

    // Case 2: LF LF within CRLF CRLF must not double-fire
    let (events, failed, clean) = feed_chunks(&[b"data: tricky\r\n\r\ndata: event\r\n\r\n"]);
    assert!(!failed);
    assert!(clean);
    assert_eq!(events.len(), 2);
    assert_eq!(events[0].data, "tricky");
    assert_eq!(events[1].data, "event");
}

#[test]
fn test_incomplete_crlf_sequences() {
    // Case 1: CR LF CR at end of buffer: the final CR terminates the
    // blank line, dispatching the event.
    let (events, failed, clean) = feed_chunks(&[b"data: event1\r\n\r"]);
    assert!(!failed);
    assert!(clean);
    assert_eq!(events.len(), 1);
    assert_eq!(events[0].data, "event1");

    // Case 2: complete CRLF CRLF separators work normally
    let (events, failed, clean) =
        feed_chunks(&[b"data: event1\r\n\r\ndata: event2\r\n\r\n"]);
    assert!(!failed);
    assert!(clean);
    assert_eq!(events.len(), 2);
    assert_eq!(events[0].data, "event1");
    assert_eq!(events[1].data, "event2");

    // Case 3: mixed separators all work
    let (events, failed, clean) =
        feed_chunks(&[b"data: event1\n\ndata: event2\r\rdata: event3\r\n\r\n"]);
    assert!(!failed);
    assert!(clean);
    assert_eq!(events.len(), 3);
    assert_eq!(events[0].data, "event1");
    assert_eq!(events[1].data, "event2");
    assert_eq!(events[2].data, "event3");
}

#[test]
fn test_chopping_at_every_offset_is_boundary_blind() {
    // Chop `data: {payload}\n\n` at every byte offset; every chopping
    // yields exactly one event whose data is the payload — also when the
    // cut splits the multi-byte character.
    let payload = "caf\u{00e9} \u{20ac}9";
    let whole: Vec<u8> = [b"data: ".as_slice(), payload.as_bytes(), b"\n\n"].concat();
    for cut in 0..=whole.len() {
        let (events, failed, clean) = feed_chunks(&[&whole[..cut], &whole[cut..]]);
        assert!(!failed, "failed at cut {cut}");
        assert!(clean, "uneven end at cut {cut}");
        assert_eq!(events.len(), 1, "wrong count at cut {cut}");
        assert_eq!(events[0].data, payload, "wrong data at cut {cut}");
        assert_eq!(events[0].event_type, "message");
    }
}

#[test]
fn test_retry_and_comment_fields() {
    let (events, failed, _clean) =
        feed_chunks(&[b": a comment line\nretry: 1500\ndata: x\n\n"]);
    assert!(!failed);
    assert_eq!(events.len(), 1);
    assert_eq!(events[0].data, "x");
    assert_eq!(events[0].retry, Some(1500));

    // A malformed retry value is ignored.
    let (events, failed, _clean) = feed_chunks(&[b"retry: soon\ndata: x\n\n"]);
    assert!(!failed);
    assert_eq!(events[0].retry, None);
}

#[test]
fn test_dangling_partial_line_is_an_error_at_end() {
    let mut stream = SseStream::new();
    stream.parse_buffer(b"data: no terminator").unwrap();
    assert!(stream.end_of_input().is_err());

    let mut stream2 = SseStream::new();
    stream2.parse_buffer(b"data: terminated line\n").unwrap();
    // The line completed, but the event never dispatched.
    assert!(stream2.end_of_input().is_err());
}

#[test]
fn test_empty_data_not_dispatched() {
    let (events, failed, clean) = feed_chunks(&[b"event: ping\n\n"]);
    assert!(!failed);
    // An event with no data is not dispatched; its fields remain pending,
    // so the stream did not end cleanly.
    assert_eq!(events.len(), 0);
    assert!(!clean);
}

#[test]
fn test_retry_plus_sign_and_unicode_whitespace() {
    // A leading plus sign is accepted, as is surrounding white space
    // beyond ASCII (here a no-break space).
    let (events, failed, _clean) = feed_chunks(&[b"retry: +1500\ndata: x\n\n"]);
    assert!(!failed);
    assert_eq!(events[0].retry, Some(1500));

    let framed = format!("retry: \u{00A0}2500\u{00A0}\ndata: x\n\n");
    let (events, failed, _clean) = feed_chunks(&[framed.as_bytes()]);
    assert!(!failed);
    assert_eq!(events[0].retry, Some(2500));

    // A lone plus sign carries nothing.
    let (events, _, _) = feed_chunks(&[b"retry: +\ndata: x\n\n"]);
    assert_eq!(events[0].retry, None);
}

#[test]
fn test_id_trims_unicode_whitespace() {
    let framed = format!("id: \u{3000}abc\u{00A0}\ndata: x\n\n");
    let (events, failed, _clean) = feed_chunks(&[framed.as_bytes()]);
    assert!(!failed);
    assert_eq!(events[0].id, "abc");
}

#[test]
fn test_retry_overflow_is_ignored() {
    let (events, failed, _clean) =
        feed_chunks(&[b"retry: 99999999999999999999999999\ndata: x\n\n"]);
    assert!(!failed);
    assert_eq!(events.len(), 1);
    assert_eq!(events[0].retry, None);

    let (events, _, _) = feed_chunks(&[b"retry: 18446744073709551615\ndata: x\n\n"]);
    assert_eq!(events[0].retry, Some(u64::MAX));
}
