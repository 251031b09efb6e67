use claude_router::openrouter::{
    convert_message, convert_stream_chunk, ChatCompletionResponse, OpenRouterContent,
    OpenRouterContentPart, OpenRouterProvider, ResponseChoice, ResponseFunctionCall,
    ResponseMessage, ResponseToolCall, ResponseUsage, StreamChoice, StreamChunk, StreamDelta,
    StreamFunctionDelta, StreamToolCallDelta, WireToolChoice,
};
use claude_router::provider_types::{
    CompletionRequest, ContentBlock, ContentSource, Message, Tool, ToolChoice,
};

fn block(content_type: &str) -> ContentBlock {
    ContentBlock {
        content_type: content_type.to_string(),
        text: None,
        source: None,
        id: None,
        name: None,
        input: None,
        tool_use_id: None,
        is_error: None,
    }
}

#[test]
fn test_provider_creation() {
    let provider = OpenRouterProvider::new(
        "test_key".to_string(),
        "https://openrouter.ai/api/v1".to_string(),
    );
    assert_eq!(provider.name(), "openrouter");
}

#[test]
fn test_convert_message_plain_text() {
    let msg = Message {
        role: "user".to_string(),
        content: vec![ContentBlock {
            content_type: "text".to_string(),
            text: Some("hello".to_string()),
            source: None,
            id: None,
            name: None,
            input: None,
            tool_use_id: None,
            is_error: None,
        }],
    };

    let converted = convert_message(&msg);
    assert_eq!(converted.len(), 1);
    match &converted[0].content {
        Some(OpenRouterContent::Text(text)) => assert_eq!(text, "hello"),
        _ => panic!("expected plain text content"),
    }
}

#[test]
fn test_convert_message_tool_use() {
    let msg = Message {
        role: "assistant".to_string(),
        content: vec![ContentBlock {
            content_type: "tool_use".to_string(),
            text: None,
            source: None,
            id: Some("call_1".to_string()),
            name: Some("get_weather".to_string()),
            input: Some(r#"{"city":"NYC"}"#.to_string()),
            tool_use_id: None,
            is_error: None,
        }],
    };

    let converted = convert_message(&msg);
    assert_eq!(converted.len(), 1);
    let tool_calls = converted[0].tool_calls.as_ref().unwrap();
    assert_eq!(tool_calls.len(), 1);
    assert_eq!(tool_calls[0].id, "call_1");
    assert_eq!(tool_calls[0].function.name, "get_weather");
}

#[test]
fn test_convert_message_tool_result_becomes_tool_message() {
    let msg = Message {
        role: "user".to_string(),
        content: vec![ContentBlock {
            content_type: "tool_result".to_string(),
            text: Some("sunny".to_string()),
            source: None,
            id: None,
            name: None,
            input: None,
            tool_use_id: Some("call_1".to_string()),
            is_error: None,
        }],
    };

    let converted = convert_message(&msg);
    assert_eq!(converted.len(), 1);
    assert_eq!(converted[0].role, "tool");
    assert_eq!(converted[0].tool_call_id, Some("call_1".to_string()));
}

#[test]
fn tool_use_arguments_and_mixed_content() {
    let mut text = block("text");
    text.text = Some("Checking.".to_string());
    let mut call = block("tool_use");
    call.id = Some("call_9".to_string());
    call.name = Some("lookup".to_string());
    call.input = Some(r#"{"q":1}"#.to_string());
    let converted = convert_message(&Message { role: "assistant".to_string(), content: vec![text, call] });
    assert_eq!(converted.len(), 1);
    assert_eq!(converted[0].role, "assistant");
    let calls = converted[0].tool_calls.as_ref().unwrap();
    assert_eq!(calls[0].call_type, "function");
    assert_eq!(calls[0].function.arguments, r#"{"q":1}"#);
    assert!(converted[0].tool_call_id.is_none());
}

#[test]
fn images_make_a_parts_message() {
    let mut text = block("text");
    text.text = Some("look".to_string());
    let mut image = block("image");
    image.source = Some(ContentSource {
        source_type: "base64".to_string(),
        media_type: "image/png".to_string(),
        data: "AAAA".to_string(),
    });
    let converted = convert_message(&Message { role: "user".to_string(), content: vec![text, image] });
    assert_eq!(converted.len(), 1);
    match &converted[0].content {
        Some(OpenRouterContent::Parts(parts)) => {
            assert_eq!(parts.len(), 2);
            assert_eq!(parts[0], OpenRouterContentPart::Text { text: "look".to_string() });
            match &parts[1] {
                OpenRouterContentPart::ImageUrl { image_url } => {
                    assert_eq!(image_url.url, "data:image/png;base64,AAAA")
                },
                _ => panic!("expected an image part"),
            }
        },
        _ => panic!("expected parts"),
    }
}

#[test]
fn request_conversion_and_endpoint() {
    let provider = OpenRouterProvider::new("sk-1".to_string(), "https://example.test/v1".to_string());
    assert_eq!(provider.chat_completions_url(), "https://example.test/v1/chat/completions");
    assert_eq!(provider.authorization(), "Bearer sk-1");
    assert!(provider.supports_tools() && provider.supports_streams());
    let mut text = block("text");
    text.text = Some("hi".to_string());
    let request = CompletionRequest {
        model: "qwen/qwen".to_string(),
        messages: vec![Message { role: "user".to_string(), content: vec![text] }],
        temperature_bits: Some(0.5f32.to_bits()),
        max_tokens: Some(64),
        stream: Some(false),
        tools: Some(vec![Tool {
            name: "lookup".to_string(),
            description: "find".to_string(),
            input_schema: r#"{"type":"object"}"#.to_string(),
        }]),
        tool_choice: Some(ToolChoice::Tool("lookup".to_string())),
    };
    let wire = provider.convert_request(&request);
    assert_eq!(wire.model, "qwen/qwen");
    assert_eq!(wire.max_tokens, Some(64));
    assert_eq!(f32::from_bits(wire.temperature_bits.unwrap()), 0.5);
    assert_eq!(wire.stream, Some(false));
    let tools = wire.tools.unwrap();
    assert_eq!(tools[0].tool_type, "function");
    assert_eq!(tools[0].function.name, "lookup");
    assert_eq!(tools[0].function.parameters, r#"{"type":"object"}"#);
    assert_eq!(wire.tool_choice, Some(WireToolChoice::Function("lookup".to_string())));
}

#[test]
fn response_conversion_repairs_tool_arguments() {
    let provider = OpenRouterProvider::new("k".to_string(), "u".to_string());
    let response = ChatCompletionResponse {
        id: "gen-1".to_string(),
        model: "m".to_string(),
        choices: vec![ResponseChoice {
            index: 0,
            message: Some(ResponseMessage {
                content: Some("Let me check.".to_string()),
                tool_calls: Some(vec![
                    ResponseToolCall {
                        id: "call_1".to_string(),
                        function: ResponseFunctionCall {
                            name: "get_weather".to_string(),
                            arguments: "{city: 'NYC',}".to_string(),
                        },
                    },
                    ResponseToolCall {
                        id: "call_2".to_string(),
                        function: ResponseFunctionCall {
                            name: "noop".to_string(),
                            arguments: "not json at all".to_string(),
                        },
                    },
                ]),
            }),
            finish_reason: Some("tool_calls".to_string()),
        }],
        usage: Some(ResponseUsage { prompt_tokens: 3, completion_tokens: 4, total_tokens: 7 }),
    };
    let converted = provider.convert_response(&response);
    assert_eq!(converted.id, "gen-1");
    let message = converted.choices[0].message.as_ref().unwrap();
    assert_eq!(message.role, "assistant");
    assert_eq!(message.content.len(), 3);
    assert_eq!(message.content[0].text, Some("Let me check.".to_string()));
    assert_eq!(message.content[1].content_type, "tool_use");
    assert_eq!(message.content[1].input, Some(r#"{"city":"NYC"}"#.to_string()));
    assert_eq!(message.content[2].input, Some("{}".to_string()));
    assert_eq!(converted.choices[0].finish_reason, Some("tool_calls".to_string()));
    assert_eq!(converted.usage.unwrap().total_tokens, 7);

    let empty_text = ChatCompletionResponse {
        id: "gen-2".to_string(),
        model: "m".to_string(),
        choices: vec![ResponseChoice {
            index: 0,
            message: Some(ResponseMessage { content: Some(String::new()), tool_calls: None }),
            finish_reason: None,
        }],
        usage: None,
    };
    let converted = provider.convert_response(&empty_text);
    assert!(converted.choices[0].message.as_ref().unwrap().content.is_empty());
    assert!(converted.usage.is_none());
}

#[test]
fn stream_chunks_become_deltas() {
    let chunk = StreamChunk {
        id: "gen-3".to_string(),
        model: "m".to_string(),
        choices: vec![StreamChoice {
            index: 0,
            delta: StreamDelta {
                role: Some("assistant".to_string()),
                content: Some("Hel".to_string()),
                tool_calls: Some(vec![StreamToolCallDelta {
                    index: 1,
                    id: Some("call_1".to_string()),
                    function: Some(StreamFunctionDelta {
                        name: Some("f".to_string()),
                        arguments: Some("{\"a\"".to_string()),
                    }),
                }]),
            },
            finish_reason: None,
        }],
        usage: None,
    };
    let converted = convert_stream_chunk(&chunk);
    assert_eq!(converted.id, "gen-3");
    let delta = converted.choices[0].delta.as_ref().unwrap();
    assert!(converted.choices[0].message.is_none());
    assert_eq!(delta.content, Some("Hel".to_string()));
    let calls = delta.tool_calls.as_ref().unwrap();
    assert_eq!(calls[0].index, 1);
    assert_eq!(calls[0].name, Some("f".to_string()));
    assert_eq!(calls[0].arguments, Some("{\"a\"".to_string()));
}
