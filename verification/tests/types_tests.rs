use platformed_llm::config::LLMRequest;
use platformed_llm::prompt::Prompt;
use platformed_llm::types::{FinishReason, InputItem, OutputItemInfo, StreamEvent, Usage};

#[test]
fn test_stream_event_properties() {
    let content_event = StreamEvent::ContentDelta {
        delta: "test".to_string(),
    };
    assert!(matches!(content_event, StreamEvent::ContentDelta { .. }));

    let done_event = StreamEvent::Done {
        finish_reason: FinishReason::Stop,
        usage: Usage::default(),
    };
    assert!(matches!(done_event, StreamEvent::Done { .. }));
}

#[test]
fn test_output_item_added_event() {
    // Test OutputItemAdded event creation and properties
    let text_event = StreamEvent::OutputItemAdded {
        item: OutputItemInfo::Text,
    };

    let function_event = StreamEvent::OutputItemAdded {
        item: OutputItemInfo::FunctionCall {
            name: "get_weather".to_string(),
            id: "fc_123".to_string(),
        },
    };

    // Test pattern matching
    assert!(matches!(text_event, StreamEvent::OutputItemAdded { .. }));
    assert!(matches!(
        function_event,
        StreamEvent::OutputItemAdded { .. }
    ));

    // Test that OutputItemInfo works correctly
    match &function_event {
        StreamEvent::OutputItemAdded {
            item: OutputItemInfo::FunctionCall { name, id },
        } => {
            assert_eq!(name, "get_weather");
            assert_eq!(id, "fc_123");
        }
        _ => panic!("Expected OutputItemAdded event with FunctionCall"),
    }

    match &text_event {
        StreamEvent::OutputItemAdded {
            item: OutputItemInfo::Text,
        } => {
            // Text items don't have additional data
        }
        _ => panic!("Expected OutputItemAdded event with Text"),
    }
}

#[test]
fn test_llm_request_builder() {
    let prompt = Prompt::user("Hello");

    // The sampling knobs are carried in thousandths.
    let request = LLMRequest::from_prompt("gpt-4", &prompt)
        .temperature(800)
        .max_tokens(500)
        .top_p(900);

    assert_eq!(request.model, "gpt-4");
    assert_eq!(request.messages.len(), 1);
    assert_eq!(request.temperature, Some(800));
    assert_eq!(request.max_tokens, Some(500));
    assert_eq!(request.top_p, Some(900));
    assert!(request.tools.is_none());
}

#[test]
fn test_llm_request_minimal() {
    let messages = vec![InputItem::user("Test")];

    let request = LLMRequest::new("gpt-3.5-turbo", messages);

    assert_eq!(request.model, "gpt-3.5-turbo");
    assert_eq!(request.messages.len(), 1);
    assert_eq!(request.temperature, None);
    assert_eq!(request.max_tokens, None);
}
