use platformed_llm::error::Error;
use platformed_llm::prompt::Prompt;
use platformed_llm::response::{CompleteResponse, OutputItem};
use platformed_llm::types::{FinishReason, FunctionCall, InputItem, Message, Role, Usage};

#[test]
fn test_complete_response_creation() {
    let response = CompleteResponse {
        output: vec![OutputItem::Text {
            content: "Hello, world!".to_string(),
        }],
        finish_reason: FinishReason::Stop,
        usage: Usage::default(),
    };

    assert_eq!(response.content(), "Hello, world!");
    assert!(response.function_calls().is_empty());
}

#[test]
fn test_mixed_output_ordering() {
    // Test that ordering is preserved: text -> function call -> more text
    let response = CompleteResponse {
        output: vec![
            OutputItem::Text {
                content: "I'll help you with that. ".to_string(),
            },
            OutputItem::FunctionCall {
                call: FunctionCall {
                    id: "fc_123".to_string(),
                    call_id: "call_123".to_string(),
                    name: "get_weather".to_string(),
                    arguments: "{\"location\":\"Paris\"}".to_string(),
                },
            },
            OutputItem::Text {
                content: " Let me also check something else.".to_string(),
            },
        ],
        finish_reason: FinishReason::Stop,
        usage: Usage::default(),
    };

    // Test content concatenation
    assert_eq!(
        response.content(),
        "I'll help you with that.  Let me also check something else."
    );

    // Test function calls extraction
    let calls = response.function_calls();
    assert_eq!(calls.len(), 1);
    assert_eq!(calls[0].name, "get_weather");

    // Test output items preserve order
    assert_eq!(response.output.len(), 3);
    match &response.output[0] {
        OutputItem::Text { content } => assert_eq!(content, "I'll help you with that. "),
        _ => panic!("Expected text item"),
    }
    match &response.output[1] {
        OutputItem::FunctionCall { call } => assert_eq!(call.name, "get_weather"),
        _ => panic!("Expected function call item"),
    }
    match &response.output[2] {
        OutputItem::Text { content } => {
            assert_eq!(content, " Let me also check something else.")
        }
        _ => panic!("Expected text item"),
    }
}

#[test]
fn test_to_items() {
    // Test text-only response
    let text_response = CompleteResponse {
        output: vec![OutputItem::Text {
            content: "Hello, world!".to_string(),
        }],
        finish_reason: FinishReason::Stop,
        usage: Usage::default(),
    };

    let items = text_response.to_items();
    assert_eq!(items.len(), 1);
    match &items[0] {
        InputItem::Message(msg) => {
            assert_eq!(msg.role(), Role::Assistant);
            assert_eq!(msg.content(), Some("Hello, world!".to_string()));
        }
        _ => panic!("Expected message"),
    }

    // Test response with function calls
    let mixed_response = CompleteResponse {
        output: vec![
            OutputItem::Text {
                content: "I'll help you with that. ".to_string(),
            },
            OutputItem::FunctionCall {
                call: FunctionCall {
                    id: "fc_123".to_string(),
                    call_id: "call_123".to_string(),
                    name: "get_weather".to_string(),
                    arguments: "{\"location\":\"Paris\"}".to_string(),
                },
            },
        ],
        finish_reason: FinishReason::ToolCalls,
        usage: Usage::default(),
    };

    let items = mixed_response.to_items();
    assert_eq!(items.len(), 2); // One text message, one function call

    // First item should be text
    match &items[0] {
        InputItem::Message(msg) => {
            assert_eq!(msg.role(), Role::Assistant);
            assert_eq!(msg.content(), Some("I'll help you with that. ".to_string()));
        }
        _ => panic!("Expected message"),
    }

    // Second item should be function call
    match &items[1] {
        InputItem::FunctionCall(call) => {
            assert_eq!(call.name, "get_weather");
        }
        _ => panic!("Expected function call"),
    }
}

#[test]
fn test_to_items_mixed() {
    // Test response with mixed content
    let mixed_response = CompleteResponse {
        output: vec![
            OutputItem::Text {
                content: "I'll help you with that. ".to_string(),
            },
            OutputItem::FunctionCall {
                call: FunctionCall {
                    id: "fc_123".to_string(),
                    call_id: "call_123".to_string(),
                    name: "get_weather".to_string(),
                    arguments: "{\"location\":\"Paris\"}".to_string(),
                },
            },
            OutputItem::Text {
                content: "Let me check that for you.".to_string(),
            },
        ],
        finish_reason: FinishReason::ToolCalls,
        usage: Usage::default(),
    };

    let items = mixed_response.to_items();
    assert_eq!(items.len(), 3);

    // Check content types
    match &items[0] {
        InputItem::Message(msg) => {
            assert_eq!(msg.role(), Role::Assistant);
            assert_eq!(msg.content(), Some("I'll help you with that. ".to_string()));
        }
        _ => panic!("Expected message"),
    }

    match &items[1] {
        InputItem::FunctionCall(call) => {
            assert_eq!(call.name, "get_weather");
        }
        _ => panic!("Expected function call"),
    }

    match &items[2] {
        InputItem::Message(msg) => {
            assert_eq!(msg.role(), Role::Assistant);
            assert_eq!(
                msg.content(),
                Some("Let me check that for you.".to_string())
            );
        }
        _ => panic!("Expected message"),
    }
}

#[test]
fn test_prompt_builder() {
    let prompt = Prompt::system("You are a helpful assistant").with_user("What is the capital of France?");

    let items = prompt.items();
    assert_eq!(items.len(), 2);

    // Test From implementations
    let prompt_from_str: Prompt = "Hello".into();
    assert_eq!(prompt_from_str.items().len(), 1);

    let prompt_from_string: Prompt = "Hello".to_string().into();
    assert_eq!(prompt_from_string.items().len(), 1);

    // Test with_response method
    let response = CompleteResponse {
        output: vec![OutputItem::Text {
            content: "AI response".to_string(),
        }],
        finish_reason: FinishReason::Stop,
        usage: Usage::default(),
    };

    let prompt_with_response = prompt.with_response(&response);
    assert_eq!(prompt_with_response.items().len(), 3); // Original 2 + 1 response

    // Check that the added item is an assistant message
    let last_item = &prompt_with_response.items()[2];
    match last_item {
        InputItem::Message(msg) => {
            assert_eq!(msg.role(), Role::Assistant);
            assert_eq!(msg.content(), Some("AI response".to_string()));
        }
        _ => panic!("Expected message"),
    }

    // Test with_items method
    let input_items = vec![
        InputItem::Message(Message::assistant("First assistant message")),
        InputItem::FunctionCall(FunctionCall {
            id: "fc_123".to_string(),
            call_id: "call_123".to_string(),
            name: "test_function".to_string(),
            arguments: "{}".to_string(),
        }),
        InputItem::Message(Message::assistant("Second assistant message")),
    ];

    let original_prompt = Prompt::system("You are a helpful assistant").with_user("Hello world");
    let prompt_with_items = original_prompt.with_items(input_items);
    assert_eq!(prompt_with_items.items().len(), 5); // Original 2 + 3 items

    // Check the added items
    let added_items = &prompt_with_items.items()[2..];
    match &added_items[0] {
        InputItem::Message(msg) => {
            assert_eq!(msg.role(), Role::Assistant);
            assert_eq!(msg.content(), Some("First assistant message".to_string()));
        }
        _ => panic!("Expected message"),
    }

    match &added_items[1] {
        InputItem::FunctionCall(call) => {
            assert_eq!(call.name, "test_function");
        }
        _ => panic!("Expected function call"),
    }

    match &added_items[2] {
        InputItem::Message(msg) => {
            assert_eq!(msg.role(), Role::Assistant);
            assert_eq!(msg.content(), Some("Second assistant message".to_string()));
        }
        _ => panic!("Expected message"),
    }
}

#[test]
fn test_error_creation() {
    let error = Error::provider("OpenAI", "Test error");
    assert!(error.message().contains("OpenAI"));
    assert!(error.message().contains("Test error"));

    let config_error = Error::config("Invalid model name");
    assert!(config_error.message().contains("Invalid configuration"));
}
