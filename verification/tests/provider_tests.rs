use platformed_llm::accumulator::buffer_events;
use platformed_llm::anthropic;
use platformed_llm::config::LLMRequest;
use platformed_llm::google;
use platformed_llm::openai;
use platformed_llm::prompt::Prompt;
use platformed_llm::types::{FinishReason, InputItem, Role, StreamEvent, Usage};

fn openai_frame(event_type: &str) -> openai::OpenAiFrame {
    openai::OpenAiFrame {
        event_type: event_type.to_string(),
        delta: None,
        item: None,
        response: None,
    }
}

#[test]
fn test_openai_simple_completion() {
    // Wire frames: an added message item, three text deltas, completed.
    let mut events: Vec<StreamEvent> = Vec::new();

    let mut added = openai_frame("response.output_item.added");
    added.item = Some(openai::OpenAiItem {
        id: "msg_1".to_string(),
        item_type: "message".to_string(),
        name: None,
        arguments: None,
        call_id: None,
    });
    events.extend(openai::convert_stream_event(&added));

    for delta in ["Hi", " ", "there."] {
        let mut frame = openai_frame("response.output_text.delta");
        frame.delta = Some(delta.to_string());
        events.extend(openai::convert_stream_event(&frame));
    }

    let mut completed = openai_frame("response.completed");
    completed.response = Some(openai::OpenAiResponseBody {
        output: vec![openai::OpenAiOutput {
            output_type: "message".to_string(),
        }],
        usage: Usage {
            input_tokens: 5,
            output_tokens: 3,
            cached_tokens: None,
        },
    });
    events.extend(openai::convert_stream_event(&completed));

    let response = buffer_events(events).unwrap();
    assert_eq!(response.content(), "Hi there.");
    assert_eq!(response.finish_reason, FinishReason::Stop);
    assert_eq!(response.usage.input_tokens, 5);
    assert_eq!(response.usage.output_tokens, 3);
    assert_eq!(response.usage.cached_tokens, None);
    assert_eq!(response.output.len(), 1);
}

#[test]
fn test_openai_empty_delta_dropped() {
    let mut frame = openai_frame("response.output_text.delta");
    frame.delta = Some(String::new());
    assert_eq!(openai::convert_stream_event(&frame).len(), 0);
}

#[test]
fn test_openai_function_call_done_item() {
    let mut done = openai_frame("response.output_item.done");
    done.item = Some(openai::OpenAiItem {
        id: "fc_9".to_string(),
        item_type: "function_call".to_string(),
        name: Some("get_weather".to_string()),
        arguments: Some("{\"location\":\"Paris\"}".to_string()),
        call_id: Some("call_9".to_string()),
    });
    let events = openai::convert_stream_event(&done);
    assert_eq!(events.len(), 1);
    match &events[0] {
        StreamEvent::FunctionCallComplete { call } => {
            assert_eq!(call.id, "fc_9");
            assert_eq!(call.call_id, "call_9");
            assert_eq!(call.name, "get_weather");
            assert_eq!(call.arguments, "{\"location\":\"Paris\"}");
        }
        _ => panic!("Expected a completed function call"),
    }
}

#[test]
fn test_openai_done_item_call_id_falls_back_to_id() {
    // When the wire omits call_id on a done function-call item, the
    // completion cites the item id instead.
    let mut done = openai_frame("response.output_item.done");
    done.item = Some(openai::OpenAiItem {
        id: "fc_77".to_string(),
        item_type: "function_call".to_string(),
        name: Some("f".to_string()),
        arguments: Some("{}".to_string()),
        call_id: None,
    });
    let events = openai::convert_stream_event(&done);
    assert_eq!(events.len(), 1);
    match &events[0] {
        StreamEvent::FunctionCallComplete { call } => {
            assert_eq!(call.id, "fc_77");
            assert_eq!(call.call_id, "fc_77");
        }
        _ => panic!("Expected a completed function call"),
    }
}

#[test]
fn test_openai_request_encoding() {
    let prompt = Prompt::system("be brief")
        .with_user("hello")
        .with_item(InputItem::function_call_output(
            "call_1".to_string(),
            "42".to_string(),
        ));
    let request = LLMRequest::from_prompt("gpt-4o-mini", &prompt);
    let body = openai::convert_request(&request);
    assert_eq!(body.model, "gpt-4o-mini");
    assert_eq!(body.input.len(), 3);
    match &body.input[0] {
        openai::OpenAiInputMessage::Regular { role, content } => {
            assert_eq!(role, "system");
            assert_eq!(content, "be brief");
        }
        _ => panic!("Expected a regular message"),
    }
    match &body.input[2] {
        openai::OpenAiInputMessage::FunctionCallOutput { call_id, output } => {
            assert_eq!(call_id, "call_1");
            assert_eq!(output, "42");
        }
        _ => panic!("Expected a function call output"),
    }
    assert_eq!(body.parallel_tool_calls, Some(true));
    assert_eq!(body.store, Some(false));
    assert_eq!(body.stream, Some(true));
    assert!(body.instructions.is_none());
}

fn gemini_text_frame(text: &str) -> google::GoogleResponse {
    google::GoogleResponse {
        candidates: vec![google::GoogleCandidate {
            content: google::GoogleContent {
                role: "model".to_string(),
                parts: vec![google::GooglePart::Text {
                    text: text.to_string(),
                }],
            },
            finish_reason: None,
        }],
        usage_metadata: None,
    }
}

#[test]
fn google_test_streaming_content_parsing() {
    let mut normalizer = google::GoogleNormalizer::new();
    let mut events: Vec<StreamEvent> = Vec::new();

    events.extend(normalizer.convert_response(&gemini_text_frame("Google")));
    events.extend(normalizer.convert_response(&gemini_text_frame(" Gemini")));
    events.extend(normalizer.convert_response(&gemini_text_frame(" is")));

    let final_frame = google::GoogleResponse {
        candidates: vec![google::GoogleCandidate {
            content: google::GoogleContent {
                role: "model".to_string(),
                parts: vec![google::GooglePart::Text {
                    text: " an AI.".to_string(),
                }],
            },
            finish_reason: Some("STOP".to_string()),
        }],
        usage_metadata: Some(google::GoogleUsageMetadata {
            prompt_token_count: Some(10),
            candidates_token_count: Some(20),
            total_token_count: Some(30),
        }),
    };
    events.extend(normalizer.convert_response(&final_frame));

    let content_events: Vec<&str> = events
        .iter()
        .filter_map(|e| match e {
            StreamEvent::ContentDelta { delta } => Some(delta.as_str()),
            _ => None,
        })
        .collect();
    assert_eq!(content_events, vec!["Google", " Gemini", " is", " an AI."]);

    let done_events: Vec<&StreamEvent> = events
        .iter()
        .filter(|e| matches!(e, StreamEvent::Done { .. }))
        .collect();
    assert_eq!(done_events.len(), 1);
    assert!(matches!(events.last(), Some(StreamEvent::Done { .. })));
}

#[test]
fn test_gemini_tool_call_scenario() {
    let mut normalizer = google::GoogleNormalizer::new();
    let first = google::GoogleResponse {
        candidates: vec![google::GoogleCandidate {
            content: google::GoogleContent {
                role: "model".to_string(),
                parts: vec![google::GooglePart::FunctionCall {
                    name: "get_weather".to_string(),
                    args: "{\"location\":\"Paris\"}".to_string(),
                }],
            },
            finish_reason: None,
        }],
        usage_metadata: None,
    };
    let second = google::GoogleResponse {
        candidates: vec![google::GoogleCandidate {
            content: google::GoogleContent {
                role: "model".to_string(),
                parts: vec![],
            },
            finish_reason: Some("STOP".to_string()),
        }],
        usage_metadata: Some(google::GoogleUsageMetadata {
            prompt_token_count: Some(10),
            candidates_token_count: Some(4),
            total_token_count: Some(14),
        }),
    };

    let mut events: Vec<StreamEvent> = Vec::new();
    events.extend(normalizer.convert_response(&first));
    events.extend(normalizer.convert_response(&second));

    // One announcement, one completion, one Done with ToolCalls.
    let mut added = 0;
    let mut completed = 0;
    for e in &events {
        match e {
            StreamEvent::OutputItemAdded { .. } => added += 1,
            StreamEvent::FunctionCallComplete { call } => {
                completed += 1;
                assert_eq!(call.name, "get_weather");
                assert_eq!(call.arguments, "{\"location\":\"Paris\"}");
            }
            _ => {}
        }
    }
    assert_eq!(added, 1);
    assert_eq!(completed, 1);
    match events.last() {
        Some(StreamEvent::Done {
            finish_reason,
            usage,
        }) => {
            assert_eq!(*finish_reason, FinishReason::ToolCalls);
            assert_eq!(usage.input_tokens, 10);
            assert_eq!(usage.output_tokens, 4);
        }
        _ => panic!("Expected a terminal Done"),
    }

    let response = buffer_events(events).unwrap();
    assert_eq!(response.finish_reason, FinishReason::ToolCalls);
}

#[test]
fn test_gemini_repeated_call_announced_once() {
    let mut normalizer = google::GoogleNormalizer::new();
    let frame = gemini_call_frame();
    let events1 = normalizer.convert_response(&frame);
    let events2 = normalizer.convert_response(&gemini_call_frame());
    let added1 = events1
        .iter()
        .filter(|e| matches!(e, StreamEvent::OutputItemAdded { .. }))
        .count();
    let added2 = events2
        .iter()
        .filter(|e| matches!(e, StreamEvent::OutputItemAdded { .. }))
        .count();
    assert_eq!(added1, 1);
    assert_eq!(added2, 0);
}

fn gemini_call_frame() -> google::GoogleResponse {
    google::GoogleResponse {
        candidates: vec![google::GoogleCandidate {
            content: google::GoogleContent {
                role: "model".to_string(),
                parts: vec![google::GooglePart::FunctionCall {
                    name: "f".to_string(),
                    args: "{}".to_string(),
                }],
            },
            finish_reason: None,
        }],
        usage_metadata: None,
    }
}

#[test]
fn test_gemini_usage_only_frame_emits_done() {
    let mut normalizer = google::GoogleNormalizer::new();
    let frame = google::GoogleResponse {
        candidates: vec![],
        usage_metadata: Some(google::GoogleUsageMetadata {
            prompt_token_count: Some(7),
            candidates_token_count: Some(2),
            total_token_count: Some(9),
        }),
    };
    let events = normalizer.convert_response(&frame);
    assert_eq!(events.len(), 1);
    match &events[0] {
        StreamEvent::Done {
            finish_reason,
            usage,
        } => {
            assert_eq!(*finish_reason, FinishReason::Stop);
            assert_eq!(usage.input_tokens, 7);
            assert_eq!(usage.output_tokens, 2);
        }
        _ => panic!("Expected Done"),
    }
}

#[test]
fn test_gemini_request_encoding_positional_names() {
    let items = vec![
        InputItem::user("What's the weather?"),
        InputItem::function_call(platformed_llm::types::FunctionCall {
            id: "fc_1".to_string(),
            call_id: "call_1".to_string(),
            name: "get_weather".to_string(),
            arguments: "{\"location\":\"Paris\"}".to_string(),
        }),
        InputItem::function_call_output("call_1".to_string(), "sunny".to_string()),
    ];
    let request = LLMRequest::new("gemini-pro", items);
    let body = google::convert_request(&request).unwrap();
    assert_eq!(body.contents.len(), 3);
    assert_eq!(body.contents[1].role, "model");
    match &body.contents[2].parts[0] {
        google::GooglePart::FunctionResponse { name, response } => {
            assert_eq!(name, "get_weather");
            assert_eq!(response, "sunny");
        }
        _ => panic!("Expected a function response part"),
    }

    // Invalid argument JSON is rejected.
    let bad = vec![InputItem::function_call(platformed_llm::types::FunctionCall {
        id: "fc_2".to_string(),
        call_id: "call_2".to_string(),
        name: "f".to_string(),
        arguments: "{not json".to_string(),
    })];
    let bad_request = LLMRequest::new("gemini-pro", bad);
    assert!(google::convert_request(&bad_request).is_err());
}

fn anth_tool_use_start(index: u32, id: &str, name: &str, input: &str) -> anthropic::AnthropicStreamEvent {
    anthropic::AnthropicStreamEvent::ContentBlockStart {
        index,
        content_block: anthropic::AnthropicContentBlock::ToolUse {
            id: id.to_string(),
            name: name.to_string(),
            input: input.to_string(),
        },
    }
}

fn anth_json_delta(index: u32, partial: &str) -> anthropic::AnthropicStreamEvent {
    anthropic::AnthropicStreamEvent::ContentBlockDelta {
        index,
        delta: anthropic::AnthropicContentDelta::InputJsonDelta {
            partial_json: partial.to_string(),
        },
    }
}

#[test]
fn anthropic_test_streaming_content_parsing() {
    let mut normalizer = anthropic::AnthropicNormalizer::new();
    let mut events: Vec<StreamEvent> = Vec::new();

    events.extend(normalizer.convert_stream_event(&anthropic::AnthropicStreamEvent::MessageStart));
    events.extend(normalizer.convert_stream_event(
        &anthropic::AnthropicStreamEvent::ContentBlockStart {
            index: 0,
            content_block: anthropic::AnthropicContentBlock::Text {
                text: String::new(),
            },
        },
    ));
    for chunk in ["Hello", " world"] {
        events.extend(normalizer.convert_stream_event(
            &anthropic::AnthropicStreamEvent::ContentBlockDelta {
                index: 0,
                delta: anthropic::AnthropicContentDelta::TextDelta {
                    text: chunk.to_string(),
                },
            },
        ));
    }
    events.extend(normalizer.convert_stream_event(
        &anthropic::AnthropicStreamEvent::ContentBlockStop { index: 0 },
    ));
    events.extend(
        normalizer.convert_stream_event(&anthropic::AnthropicStreamEvent::MessageStop),
    );

    let content_events: Vec<&str> = events
        .iter()
        .filter_map(|e| match e {
            StreamEvent::ContentDelta { delta } => Some(delta.as_str()),
            _ => None,
        })
        .collect();
    assert_eq!(content_events, vec!["Hello", " world"]);

    let done_events: Vec<&StreamEvent> = events
        .iter()
        .filter(|e| matches!(e, StreamEvent::Done { .. }))
        .collect();
    assert_eq!(done_events.len(), 1);
    assert!(matches!(events.last(), Some(StreamEvent::Done { .. })));
}

#[test]
fn test_anthropic_incremental_arguments() {
    // Initial input `{}`, arguments arriving through three JSON deltas,
    // concatenated byte for byte.
    let mut normalizer = anthropic::AnthropicNormalizer::new();
    let mut events: Vec<StreamEvent> = Vec::new();
    events.extend(normalizer.convert_stream_event(&anth_tool_use_start(
        0,
        "toolu_1",
        "get_weather",
        "{}",
    )));
    for part in ["{\"loc", "ation\":\"Par", "is\"}"] {
        events.extend(normalizer.convert_stream_event(&anth_json_delta(0, part)));
    }
    events.extend(normalizer.convert_stream_event(
        &anthropic::AnthropicStreamEvent::ContentBlockStop { index: 0 },
    ));
    events.extend(normalizer.convert_stream_event(
        &anthropic::AnthropicStreamEvent::MessageDelta {
            delta: anthropic::AnthropicMessageDelta {
                stop_reason: Some("tool_use".to_string()),
                usage: None,
            },
        },
    ));
    events.extend(
        normalizer.convert_stream_event(&anthropic::AnthropicStreamEvent::MessageStop),
    );

    let mut arguments = None;
    for e in &events {
        if let StreamEvent::FunctionCallComplete { call } = e {
            assert_eq!(call.call_id, "toolu_1");
            arguments = Some(call.arguments.clone());
        }
    }
    assert_eq!(arguments.as_deref(), Some("{\"location\":\"Paris\"}"));

    match events.last() {
        Some(StreamEvent::Done { finish_reason, .. }) => {
            assert_eq!(*finish_reason, FinishReason::ToolCalls);
        }
        _ => panic!("Expected a terminal Done"),
    }
}

#[test]
fn test_anthropic_initial_input_replaced_by_delta() {
    // With complete initial input, a JSON delta replaces the buffer.
    let mut normalizer = anthropic::AnthropicNormalizer::new();
    let mut events: Vec<StreamEvent> = Vec::new();
    events.extend(normalizer.convert_stream_event(&anth_tool_use_start(
        0,
        "toolu_2",
        "f",
        "{\"a\":1}",
    )));
    events.extend(normalizer.convert_stream_event(&anth_json_delta(0, "{\"a\":2}")));
    events.extend(normalizer.convert_stream_event(
        &anthropic::AnthropicStreamEvent::ContentBlockStop { index: 0 },
    ));
    let mut arguments = None;
    for e in &events {
        if let StreamEvent::FunctionCallComplete { call } = e {
            arguments = Some(call.arguments.clone());
        }
    }
    assert_eq!(arguments.as_deref(), Some("{\"a\":2}"));
}

#[test]
fn test_anthropic_follow_up_round_trip() {
    // A response with one tool call, appended to a prompt with the tool
    // result, encodes to exactly one assistant message with a tool_use
    // block and one user message with a single matching tool_result.
    let mut normalizer = anthropic::AnthropicNormalizer::new();
    let mut events: Vec<StreamEvent> = Vec::new();
    events.extend(normalizer.convert_stream_event(&anth_tool_use_start(
        0,
        "toolu_1",
        "get_weather",
        "{}",
    )));
    for part in ["{\"loc", "ation\":\"Par", "is\"}"] {
        events.extend(normalizer.convert_stream_event(&anth_json_delta(0, part)));
    }
    events.extend(normalizer.convert_stream_event(
        &anthropic::AnthropicStreamEvent::ContentBlockStop { index: 0 },
    ));
    events.extend(
        normalizer.convert_stream_event(&anthropic::AnthropicStreamEvent::MessageStop),
    );
    let response = buffer_events(events).unwrap();

    let prompt = Prompt::user("What's the weather in Paris?")
        .with_response(&response)
        .with_item(InputItem::function_call_output(
            "toolu_1".to_string(),
            "sunny 22C".to_string(),
        ));
    let request = LLMRequest::from_prompt("anthropic-model", &prompt);
    let body = anthropic::convert_request(&request).unwrap();

    assert_eq!(body.anthropic_version, "vertex-2023-10-16");
    assert_eq!(body.stream, Some(true));
    assert_eq!(body.messages.len(), 3);

    // Exactly one assistant message holding a tool_use block.
    let mut tool_use_messages = 0;
    let mut tool_result_messages = 0;
    for m in &body.messages {
        if let anthropic::AnthropicContent::Blocks(blocks) = &m.content {
            for b in blocks {
                match b {
                    anthropic::AnthropicContentBlock::ToolUse { id, name, input } => {
                        tool_use_messages += 1;
                        assert_eq!(m.role, "assistant");
                        assert_eq!(id, "toolu_1");
                        assert_eq!(name, "get_weather");
                        assert_eq!(input, "{\"location\":\"Paris\"}");
                    }
                    anthropic::AnthropicContentBlock::ToolResult {
                        tool_use_id,
                        content,
                    } => {
                        tool_result_messages += 1;
                        assert_eq!(m.role, "user");
                        assert_eq!(tool_use_id, "toolu_1");
                        assert_eq!(content, "sunny 22C");
                    }
                    _ => {}
                }
            }
        }
    }
    assert_eq!(tool_use_messages, 1);
    assert_eq!(tool_result_messages, 1);
}

#[test]
fn test_anthropic_system_and_knobs() {
    let prompt = Prompt::system("be brief").with_user("hi");
    let request = LLMRequest::from_prompt("anthropic-model", &prompt)
        .max_tokens(256)
        .temperature(500);
    let body = anthropic::convert_request(&request).unwrap();
    assert_eq!(body.system, Some("be brief".to_string()));
    assert_eq!(body.max_tokens, 256);
    assert_eq!(body.temperature, Some(500));
    assert_eq!(body.messages.len(), 1);
    assert_eq!(body.messages[0].role, "user");
}

#[test]
fn test_endpoints() {
    assert_eq!(
        google::get_endpoint("proj", "europe-west1", "gemini-pro"),
        "https://europe-west1-aiplatform.googleapis.com/v1/projects/proj/locations/europe-west1/publishers/google/models/gemini-pro:streamGenerateContent?alt=sse"
    );
    assert_eq!(
        anthropic::get_endpoint("proj", "us-east5", "anthropic-model"),
        "https://us-east5-aiplatform.googleapis.com/v1/projects/proj/locations/us-east5/publishers/anthropic/models/anthropic-model:streamRawPredict?alt=sse"
    );
}

#[test]
fn test_skippable_data() {
    assert!(platformed_llm::strutil::is_skippable_data("[DONE]"));
    assert!(platformed_llm::strutil::is_skippable_data("  [DONE] \n"));
    assert!(platformed_llm::strutil::is_skippable_data("\u{00A0}[DONE]\u{3000}"));
    assert!(platformed_llm::strutil::is_skippable_data("   "));
    assert!(!platformed_llm::strutil::is_skippable_data("{\"x\":1}"));
}

#[test]
fn test_anthropic_message_delta_usage() {
    let mut normalizer = anthropic::AnthropicNormalizer::new();
    normalizer.convert_stream_event(&anthropic::AnthropicStreamEvent::MessageDelta {
        delta: anthropic::AnthropicMessageDelta {
            stop_reason: Some("max_tokens".to_string()),
            usage: Some(anthropic::AnthropicUsage {
                input_tokens: Some(11),
                output_tokens: Some(22),
                cache_creation_input_tokens: Some(3),
                cache_read_input_tokens: None,
            }),
        },
    });
    let events =
        normalizer.convert_stream_event(&anthropic::AnthropicStreamEvent::MessageStop);
    assert_eq!(events.len(), 1);
    match &events[0] {
        StreamEvent::Done {
            finish_reason,
            usage,
        } => {
            assert_eq!(*finish_reason, FinishReason::Length);
            assert_eq!(usage.input_tokens, 11);
            assert_eq!(usage.output_tokens, 22);
            assert_eq!(usage.cached_tokens, Some(3));
        }
        _ => panic!("Expected Done"),
    }
}

#[test]
fn test_message_role_helpers() {
    let item = InputItem::assistant("hello");
    assert_eq!(item.role(), Some(Role::Assistant));
    assert_eq!(item.content(), Some("hello".to_string()));
    assert!(item.get_function_call().is_none());
    assert!(item.function_call_id().is_none());

    let out = InputItem::function_call_output("c1".to_string(), "r".to_string());
    assert_eq!(out.function_call_id(), Some("c1"));
    assert_eq!(out.content(), Some("r".to_string()));
}

#[test]
fn test_openai_added_item_without_name_defaults() {
    let mut added = openai_frame("response.output_item.added");
    added.item = Some(openai::OpenAiItem {
        id: "fc_7".to_string(),
        item_type: "function_call".to_string(),
        name: None,
        arguments: None,
        call_id: None,
    });
    let events = openai::convert_stream_event(&added);
    assert_eq!(events.len(), 1);
    match &events[0] {
        StreamEvent::OutputItemAdded {
            item: platformed_llm::types::OutputItemInfo::FunctionCall { name, id },
        } => {
            assert_eq!(name, "unknown");
            assert_eq!(id, "fc_7");
        }
        _ => panic!("Expected a function-call announcement"),
    }
}
