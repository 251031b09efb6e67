use claude_router::messages::{
    closing_events, event_name, has_room_for, process_chunk, stream_end_events,
    stream_error_events, SseContentBlock, SseDelta, StreamCtx, StreamEvent,
};
use claude_router::provider_types::{Choice, CompletionResponse, Delta, ToolCallDelta, Usage};
use claude_router::sse::{SseDecoder, SsePoll};

fn chunk(content: Option<&str>, tools: Option<Vec<ToolCallDelta>>, finish: Option<&str>) -> CompletionResponse {
    CompletionResponse {
        id: "gen-1".to_string(),
        model: "m".to_string(),
        choices: vec![Choice {
            index: 0,
            message: None,
            delta: Some(Delta {
                role: None,
                content: content.map(|s| s.to_string()),
                tool_calls: tools,
            }),
            finish_reason: finish.map(|s| s.to_string()),
        }],
        usage: None,
    }
}

fn tool(index: usize, id: Option<&str>, name: Option<&str>, args: Option<&str>) -> ToolCallDelta {
    ToolCallDelta {
        index,
        id: id.map(|s| s.to_string()),
        name: name.map(|s| s.to_string()),
        arguments: args.map(|s| s.to_string()),
    }
}

fn drain(decoder: &mut SseDecoder) -> Vec<String> {
    let mut out = Vec::new();
    while let SsePoll::Data(d) = decoder.next_payload() {
        out.push(d);
    }
    out
}

#[test]
fn decoder_splits_events_and_skips_markers() {
    let mut decoder = SseDecoder::new();
    decoder.feed("data: {\"a\":1}\n\n: comment\ndata:  {\"b\":2} \r\n\n");
    assert_eq!(drain(&mut decoder), vec!["{\"a\":1}".to_string(), "{\"b\":2}".to_string()]);
    decoder.feed("data: \n\ndata: [DONE]\n\ndata: late\n\n");
    assert_eq!(drain(&mut decoder), vec!["late".to_string()]);
    assert_eq!(decoder.next_payload(), SsePoll::Finished);
}

#[test]
fn decoder_output_does_not_depend_on_chunking() {
    let text = "data: one\n\nevent: x\ndata: two\n\ndata: thr";
    let mut whole = SseDecoder::new();
    whole.feed(text);
    let all = drain(&mut whole);
    for cut in 0..text.len() {
        let mut pieces = SseDecoder::new();
        pieces.feed(&text[..cut]);
        let mut got = drain(&mut pieces);
        pieces.feed(&text[cut..]);
        got.extend(drain(&mut pieces));
        assert_eq!(got, all);
    }
    for a in 0..text.len() {
        for b in a..text.len() {
            let mut pieces = SseDecoder::new();
            let mut got = Vec::new();
            for piece in [&text[..a], &text[a..b], &text[b..]] {
                pieces.feed(piece);
                got.extend(drain(&mut pieces));
            }
            assert_eq!(got, all);
        }
    }
    assert_eq!(all, vec!["one".to_string(), "two".to_string()]);
    assert_eq!(whole.next_payload(), SsePoll::NeedInput);
    whole.finish();
    assert_eq!(whole.next_payload(), SsePoll::Finished);
}

#[test]
fn text_then_tool_blocks_are_opened_and_closed_in_order() {
    let mut ctx = StreamCtx::new();
    let first = chunk(Some("Hel"), None, None);
    assert!(has_room_for(&ctx, &first));
    let events = process_chunk(&mut ctx, &first);
    assert_eq!(events.len(), 3);
    assert_eq!(event_name(&events[0]), "message_start");
    assert_eq!(
        events[1],
        StreamEvent::ContentBlockStart { index: 0, content_block: SseContentBlock::Text { text: String::new() } }
    );
    assert_eq!(
        events[2],
        StreamEvent::ContentBlockDelta { index: 0, delta: SseDelta::TextDelta { text: "Hel".to_string() } }
    );

    let events = process_chunk(&mut ctx, &chunk(Some("lo"), None, None));
    assert_eq!(events.len(), 1);

    let events = process_chunk(
        &mut ctx,
        &chunk(None, Some(vec![tool(0, Some("call_1"), Some("f"), Some("{\"a\""))]), None),
    );
    assert_eq!(events.len(), 3);
    assert_eq!(events[0], StreamEvent::ContentBlockStop { index: 0 });
    assert_eq!(
        events[1],
        StreamEvent::ContentBlockStart {
            index: 1,
            content_block: SseContentBlock::ToolUse {
                id: "call_1".to_string(),
                name: "f".to_string(),
                input: "{}".to_string(),
            },
        }
    );
    assert_eq!(
        events[2],
        StreamEvent::ContentBlockDelta {
            index: 1,
            delta: SseDelta::InputJsonDelta { partial_json: "{\"a\"".to_string() },
        }
    );

    let events = process_chunk(&mut ctx, &chunk(None, Some(vec![tool(0, None, None, Some(":1}"))]), Some("tool_calls")));
    assert_eq!(events.len(), 1);
    assert_eq!(
        events[0],
        StreamEvent::ContentBlockDelta {
            index: 1,
            delta: SseDelta::InputJsonDelta { partial_json: ":1}".to_string() },
        }
    );

    let mut with_usage = chunk(None, None, None);
    with_usage.usage = Some(Usage { prompt_tokens: 5, completion_tokens: 9, total_tokens: 14 });
    assert!(process_chunk(&mut ctx, &with_usage).is_empty());

    let events = stream_end_events(&mut ctx);
    assert_eq!(events.len(), 3);
    assert_eq!(events[0], StreamEvent::ContentBlockStop { index: 1 });
    assert_eq!(event_name(&events[1]), "message_delta");
    match &events[1] {
        StreamEvent::MessageDelta { delta, usage } => {
            assert_eq!(delta.stop_reason, Some("tool_use".to_string()));
            assert_eq!(usage.input_tokens, 5);
            assert_eq!(usage.output_tokens, 9);
        },
        _ => panic!("expected message_delta"),
    }
    assert_eq!(events[2], StreamEvent::MessageStop);
}

#[test]
fn empty_stream_and_early_error() {
    let mut ctx = StreamCtx::new();
    assert!(stream_end_events(&mut ctx).is_empty());

    let mut ctx = StreamCtx::new();
    let events = stream_error_events(&mut ctx, "connection reset");
    assert_eq!(events.len(), 1);
    assert_eq!(event_name(&events[0]), "error");
    match &events[0] {
        StreamEvent::Error { error } => {
            assert_eq!(error.error_type, "api_error");
            assert_eq!(error.message, "connection reset");
        },
        _ => panic!("expected an error event"),
    }

    let mut ctx = StreamCtx::new();
    process_chunk(&mut ctx, &chunk(Some("x"), None, None));
    let events = stream_error_events(&mut ctx, "late failure");
    assert_eq!(events.len(), 3);
    match &events[1] {
        StreamEvent::MessageDelta { delta, .. } => {
            assert_eq!(delta.stop_reason, Some("end_turn".to_string()))
        },
        _ => panic!("expected message_delta"),
    }
    let mut ctx = StreamCtx::new();
    process_chunk(&mut ctx, &chunk(None, None, Some("length")));
    let events = closing_events(&mut ctx);
    assert_eq!(events.len(), 2);
    match &events[0] {
        StreamEvent::MessageDelta { delta, .. } => {
            assert_eq!(delta.stop_reason, Some("max_tokens".to_string()))
        },
        _ => panic!("expected message_delta"),
    }
}

#[test]
fn input_fragments_follow_their_own_block() {
    // In order: each call's input arrives while its block is open.
    let mut ctx = StreamCtx::new();
    let mut events = Vec::new();
    events.extend(process_chunk(&mut ctx, &chunk(None, Some(vec![tool(0, Some("a"), Some("f"), Some("{"))]), None)));
    events.extend(process_chunk(&mut ctx, &chunk(None, Some(vec![tool(0, None, None, Some("}"))]), None)));
    events.extend(process_chunk(&mut ctx, &chunk(None, Some(vec![tool(1, Some("b"), Some("g"), Some("[]"))]), None)));
    events.extend(stream_end_events(&mut ctx));
    let mut open: Option<usize> = None;
    for e in &events {
        match e {
            StreamEvent::ContentBlockStart { index, .. } => open = Some(*index),
            StreamEvent::ContentBlockStop { .. } => open = None,
            StreamEvent::ContentBlockDelta { index, .. } => assert_eq!(Some(*index), open),
            _ => {},
        }
    }
    // Out of order: a late fragment of the first call still goes to its block.
    let late = process_chunk(&mut ctx, &chunk(None, Some(vec![tool(0, None, None, Some("x"))]), None));
    assert_eq!(
        late,
        vec![StreamEvent::ContentBlockDelta {
            index: 0,
            delta: SseDelta::InputJsonDelta { partial_json: "x".to_string() },
        }]
    );
}
