use platformed_llm::accumulator::{buffer_events, ResponseAccumulator};
use platformed_llm::response::OutputItem;
use platformed_llm::types::{FinishReason, FunctionCall, OutputItemInfo, StreamEvent, Usage};

#[test]
fn test_content_accumulation() {
    let mut accumulator = ResponseAccumulator::new();

    // Without OutputItemAdded, content should still work (for backward compatibility)
    let event1 = StreamEvent::ContentDelta {
        delta: "Hello ".to_string(),
    };
    accumulator.process_event(event1).unwrap();
    assert_eq!(accumulator.current_content(), "Hello ");

    let event2 = StreamEvent::ContentDelta {
        delta: "world!".to_string(),
    };
    accumulator.process_event(event2).unwrap();
    assert_eq!(accumulator.current_content(), "Hello world!");
}

#[test]
fn test_output_item_based_accumulation() {
    let mut accumulator = ResponseAccumulator::new();

    // Add first text output item
    let add_text1 = StreamEvent::OutputItemAdded {
        item: OutputItemInfo::Text,
    };
    accumulator.process_event(add_text1).unwrap();

    // Add content to first text item
    let delta1 = StreamEvent::ContentDelta {
        delta: "First item. ".to_string(),
    };
    accumulator.process_event(delta1).unwrap();
    assert_eq!(accumulator.current_content(), "First item. ");

    // Add function call output item
    let add_func = StreamEvent::OutputItemAdded {
        item: OutputItemInfo::FunctionCall {
            name: "test_func".to_string(),
            id: "fc_123".to_string(),
        },
    };
    accumulator.process_event(add_func).unwrap();

    // Complete the function call
    let func_complete = StreamEvent::FunctionCallComplete {
        call: FunctionCall {
            id: "fc_123".to_string(),
            call_id: "call_123".to_string(),
            name: "test_func".to_string(),
            arguments: "{}".to_string(),
        },
    };
    accumulator.process_event(func_complete).unwrap();

    // Add second text output item
    let add_text2 = StreamEvent::OutputItemAdded {
        item: OutputItemInfo::Text,
    };
    accumulator.process_event(add_text2).unwrap();

    // Add content to second text item
    let delta2 = StreamEvent::ContentDelta {
        delta: "Second item.".to_string(),
    };
    accumulator.process_event(delta2).unwrap();

    // Verify content accumulation
    assert_eq!(accumulator.current_content(), "First item. Second item.");

    // Verify output structure
    let response = accumulator.finalize().unwrap();
    assert_eq!(response.output.len(), 3);

    match &response.output[0] {
        OutputItem::Text { content } => assert_eq!(content, "First item. "),
        _ => panic!("Expected text item"),
    }

    match &response.output[1] {
        OutputItem::FunctionCall { call } => assert_eq!(call.name, "test_func"),
        _ => panic!("Expected function call"),
    }

    match &response.output[2] {
        OutputItem::Text { content } => assert_eq!(content, "Second item."),
        _ => panic!("Expected text item"),
    }
}

#[test]
fn test_function_call_accumulation() {
    let mut accumulator = ResponseAccumulator::new();

    // Complete function call
    let complete_event = StreamEvent::FunctionCallComplete {
        call: FunctionCall {
            id: "fc_123".to_string(),
            call_id: "call_123".to_string(),
            name: "get_weather".to_string(),
            arguments: "{\"location\": \"Paris\"}".to_string(),
        },
    };
    accumulator.process_event(complete_event).unwrap();

    assert_eq!(accumulator.completed_function_calls().len(), 1);
    assert_eq!(
        accumulator.completed_function_calls()[0].name,
        "get_weather"
    );
}

#[test]
fn test_finalization() {
    let mut accumulator = ResponseAccumulator::new();

    // Add some content
    let content_event = StreamEvent::ContentDelta {
        delta: "Test response".to_string(),
    };
    accumulator.process_event(content_event).unwrap();

    // Add done event
    let done_event = StreamEvent::Done {
        finish_reason: FinishReason::Stop,
        usage: Usage::default(),
    };
    accumulator.process_event(done_event).unwrap();

    // Finalize
    let complete = accumulator.finalize().unwrap();
    assert_eq!(complete.content(), "Test response");
    assert_eq!(complete.finish_reason, FinishReason::Stop);
}

#[test]
fn test_done_only_stream_yields_empty_stop_zero() {
    // A stream that ends after a single Done with Stop and zero usage
    // yields a response with empty output, Stop, and zero usage.
    let events = vec![StreamEvent::Done {
        finish_reason: FinishReason::Stop,
        usage: Usage {
            input_tokens: 0,
            output_tokens: 0,
            cached_tokens: None,
        },
    }];
    let response = buffer_events(events).unwrap();
    assert_eq!(response.output.len(), 0);
    assert_eq!(response.finish_reason, FinishReason::Stop);
    assert_eq!(response.usage.input_tokens, 0);
    assert_eq!(response.usage.output_tokens, 0);
    assert_eq!(response.usage.cached_tokens, None);
}

#[test]
fn test_buffering_twice_yields_equal_responses() {
    let make_events = || {
        vec![
            StreamEvent::OutputItemAdded {
                item: OutputItemInfo::Text,
            },
            StreamEvent::ContentDelta {
                delta: "Hi".to_string(),
            },
            StreamEvent::FunctionCallComplete {
                call: FunctionCall {
                    id: "fc_1".to_string(),
                    call_id: "call_1".to_string(),
                    name: "f".to_string(),
                    arguments: "{}".to_string(),
                },
            },
            StreamEvent::Done {
                finish_reason: FinishReason::Stop,
                usage: Usage::default(),
            },
        ]
    };
    let r1 = buffer_events(make_events()).unwrap();
    let r2 = buffer_events(make_events()).unwrap();
    assert_eq!(r1.content(), r2.content());
    assert_eq!(r1.finish_reason, r2.finish_reason);
    assert_eq!(r1.output.len(), r2.output.len());
    assert_eq!(r1.function_calls().len(), r2.function_calls().len());
}

#[test]
fn test_tool_calls_finish_reason_from_calls() {
    // A recorded Stop with a function call present finalizes as ToolCalls.
    let events = vec![
        StreamEvent::FunctionCallComplete {
            call: FunctionCall {
                id: "fc_1".to_string(),
                call_id: "call_1".to_string(),
                name: "f".to_string(),
                arguments: "{}".to_string(),
            },
        },
        StreamEvent::Done {
            finish_reason: FinishReason::Stop,
            usage: Usage::default(),
        },
    ];
    let response = buffer_events(events).unwrap();
    assert_eq!(response.finish_reason, FinishReason::ToolCalls);

    // An explicit Length signal stands even with a call present.
    let events2 = vec![
        StreamEvent::FunctionCallComplete {
            call: FunctionCall {
                id: "fc_1".to_string(),
                call_id: "call_1".to_string(),
                name: "f".to_string(),
                arguments: "{}".to_string(),
            },
        },
        StreamEvent::Done {
            finish_reason: FinishReason::Length,
            usage: Usage::default(),
        },
    ];
    let response2 = buffer_events(events2).unwrap();
    assert_eq!(response2.finish_reason, FinishReason::Length);
}

#[test]
fn test_buffering_stops_at_error_event() {
    let events = vec![
        StreamEvent::ContentDelta {
            delta: "partial".to_string(),
        },
        StreamEvent::Error {
            error: "connection dropped".to_string(),
        },
    ];
    assert!(buffer_events(events).is_err());
}
