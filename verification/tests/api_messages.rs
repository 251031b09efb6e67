use claude_router::messages::{
    convert_to_completion_request, create_error_response, handle_regular_response,
    map_stop_reason, request_rejection, Content, ContentBlock, ContentSource, Message,
    MessagesRequest, Tool, ToolChoice,
};
use claude_router::provider_types::{
    Choice, CompletionResponse, ContentBlock as ProviderBlock, Message as ProviderMessage,
    ToolChoice as ProviderToolChoice, Usage,
};

fn base_request() -> MessagesRequest {
    MessagesRequest {
        model: Some("sonnet-latest".to_string()),
        messages: vec![
            Message { role: "user".to_string(), content: Content::Text("hi".to_string()) },
            Message {
                role: "assistant".to_string(),
                content: Content::Blocks(vec![
                    ContentBlock::Text { text: "calling".to_string() },
                    ContentBlock::ToolUse {
                        id: "call_1".to_string(),
                        name: "f".to_string(),
                        input: "{\"a\":1}".to_string(),
                    },
                ]),
            },
            Message {
                role: "user".to_string(),
                content: Content::Blocks(vec![
                    ContentBlock::ToolResult {
                        tool_use_id: "call_1".to_string(),
                        content: "done".to_string(),
                        is_error: Some(false),
                    },
                    ContentBlock::Image {
                        source: ContentSource {
                            source_type: "base64".to_string(),
                            media_type: "image/png".to_string(),
                            data: "AA".to_string(),
                        },
                    },
                ]),
            },
        ],
        system: Some("be kind".to_string()),
        temperature_bits: 1.0f32.to_bits(),
        max_tokens: 512,
        stream: true,
        tools: Some(vec![Tool {
            name: "f".to_string(),
            description: "d".to_string(),
            input_schema: "{}".to_string(),
        }]),
        tool_choice: Some(ToolChoice::Any),
    }
}

fn provider_block(content_type: &str) -> ProviderBlock {
    ProviderBlock {
        content_type: content_type.to_string(),
        text: None,
        source: None,
        id: None,
        name: None,
        input: None,
        tool_use_id: None,
        is_error: None,
    }
}

#[test]
fn request_conversion_keeps_every_part() {
    let converted = convert_to_completion_request(&base_request()).unwrap();
    assert_eq!(converted.model, "sonnet-latest");
    assert_eq!(converted.messages.len(), 4);
    assert_eq!(converted.messages[0].role, "system");
    assert_eq!(converted.messages[0].content[0].text, Some("be kind".to_string()));
    assert_eq!(converted.messages[1].content[0].text, Some("hi".to_string()));
    let call = &converted.messages[2].content[1];
    assert_eq!(call.content_type, "tool_use");
    assert_eq!(call.id, Some("call_1".to_string()));
    assert_eq!(call.input, Some("{\"a\":1}".to_string()));
    let result = &converted.messages[3].content[0];
    assert_eq!(result.content_type, "tool_result");
    assert_eq!(result.tool_use_id, Some("call_1".to_string()));
    assert_eq!(result.text, Some("done".to_string()));
    assert_eq!(result.is_error, Some(false));
    let image = &converted.messages[3].content[1];
    assert_eq!(image.source.as_ref().unwrap().media_type, "image/png");
    assert_eq!(converted.temperature_bits, Some(1.0f32.to_bits()));
    assert_eq!(converted.max_tokens, Some(512));
    assert_eq!(converted.stream, Some(true));
    assert_eq!(converted.tools.as_ref().unwrap()[0].name, "f");
    assert_eq!(converted.tool_choice, Some(ProviderToolChoice::Any));
}

#[test]
fn empty_system_and_missing_model() {
    let mut request = base_request();
    request.system = Some(String::new());
    request.model = None;
    let converted = convert_to_completion_request(&request).unwrap();
    assert_eq!(converted.messages.len(), 3);
    assert_eq!(converted.model, "");
    request.system = None;
    assert_eq!(convert_to_completion_request(&request).unwrap().messages.len(), 3);
}

#[test]
fn zero_max_tokens_is_a_bad_request() {
    let mut request = base_request();
    assert_eq!(request_rejection(&request), None);
    request.max_tokens = 0;
    assert_eq!(request_rejection(&request), Some(400));
}

#[test]
fn stop_reasons() {
    assert_eq!(map_stop_reason(Some("tool_calls")), "tool_use");
    assert_eq!(map_stop_reason(Some("length")), "max_tokens");
    assert_eq!(map_stop_reason(Some("stop")), "end_turn");
    assert_eq!(map_stop_reason(Some("content_filter")), "end_turn");
    assert_eq!(map_stop_reason(None), "end_turn");
}

#[test]
fn regular_response_translation() {
    let mut text = provider_block("text");
    text.text = Some("Hello".to_string());
    let mut call = provider_block("tool_use");
    call.id = Some("call_7".to_string());
    call.name = Some("g".to_string());
    let response = CompletionResponse {
        id: "gen-9".to_string(),
        model: "m".to_string(),
        choices: vec![Choice {
            index: 0,
            message: Some(ProviderMessage { role: "assistant".to_string(), content: vec![text, call] }),
            delta: None,
            finish_reason: Some("tool_calls".to_string()),
        }],
        usage: Some(Usage { prompt_tokens: 2, completion_tokens: 3, total_tokens: 5 }),
    };
    let out = handle_regular_response(&response);
    assert_eq!(out.id, "gen-9");
    assert_eq!(out.response_type, "message");
    assert_eq!(out.role, "assistant");
    assert_eq!(out.content[0], ContentBlock::Text { text: "Hello".to_string() });
    assert_eq!(
        out.content[1],
        ContentBlock::ToolUse { id: "call_7".to_string(), name: "g".to_string(), input: "null".to_string() }
    );
    assert_eq!(out.stop_reason, Some("tool_use".to_string()));
    assert_eq!(out.stop_sequence, None);
    assert_eq!((out.usage.input_tokens, out.usage.output_tokens), (2, 3));

    let bare = CompletionResponse { id: "x".to_string(), model: "m".to_string(), choices: vec![], usage: None };
    let out = handle_regular_response(&bare);
    assert_eq!(out.content, vec![ContentBlock::Text { text: String::new() }]);
    assert_eq!(out.stop_reason, Some("end_turn".to_string()));
    assert_eq!((out.usage.input_tokens, out.usage.output_tokens), (0, 0));
}

#[test]
fn error_body() {
    let e = create_error_response("boom", "internal_error");
    assert_eq!(e.response_type, "error");
    assert_eq!(e.error.error_type, "internal_error");
    assert_eq!(e.error.message, "boom");
}
