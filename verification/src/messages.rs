//! The Anthropic `/v1/messages` API: its request and response shapes,
//! their conversion to and from the provider-neutral model, and the
//! translation of a streamed reply into Anthropic's event sequence.
use vstd::prelude::*;
use vstd::string::*;
use crate::text::{clone_opt_string, string_or_empty, text_or_empty, str_eq};
use crate::provider_types::{
    CompletionRequest, CompletionRequestView, CompletionResponse, ContentBlock as ProviderContentBlock,
    ContentBlockView, ContentSource as ProviderContentSource, ContentSourceView,
    Message as ProviderMessage, MessageView, Tool as ProviderTool, ToolView,
    ToolChoice as ProviderToolChoice, ToolChoiceView, CompletionResponseView, ToolCallDeltaView,
};

verus! {

// ---------------------------------------------------------------------
// API types
// ---------------------------------------------------------------------

/// Content source structure
#[derive(Debug, Clone, PartialEq)]
pub struct ContentSource {
    pub source_type: String,
    pub media_type: String,
    pub data: String,
}

/// Content block structure
#[derive(Debug, Clone, PartialEq)]
pub enum ContentBlock {
    Text { text: String },
    Image { source: ContentSource },
    /// `input` is the tool input as compact JSON text.
    ToolUse { id: String, name: String, input: String },
    ToolResult { tool_use_id: String, content: String, is_error: Option<bool> },
}

/// Abstract value of a [`ContentBlock`].
pub enum ApiBlockView {
    Text { text: Seq<char> },
    Image { source: ContentSourceView },
    ToolUse { id: Seq<char>, name: Seq<char>, input: Seq<char> },
    ToolResult { tool_use_id: Seq<char>, content: Seq<char>, is_error: Option<bool> },
}

/// The abstract value of an API content source.
pub open spec fn source_view(s: ContentSource) -> ContentSourceView {
    ContentSourceView { source_type: s.source_type@, media_type: s.media_type@, data: s.data@ }
}

impl DeepView for ContentBlock {
    type V = ApiBlockView;

    open spec fn deep_view(&self) -> ApiBlockView {
        match self {
            ContentBlock::Text { text } => ApiBlockView::Text { text: text@ },
            ContentBlock::Image { source } => ApiBlockView::Image { source: source_view(*source) },
            ContentBlock::ToolUse { id, name, input } => ApiBlockView::ToolUse {
                id: id@,
                name: name@,
                input: input@,
            },
            ContentBlock::ToolResult { tool_use_id, content, is_error } => ApiBlockView::ToolResult {
                tool_use_id: tool_use_id@,
                content: content@,
                is_error: *is_error,
            },
        }
    }
}

/// Content enum for message content
#[derive(Debug, Clone, PartialEq)]
pub enum Content {
    Text(String),
    Blocks(Vec<ContentBlock>),
}

/// Message structure
#[derive(Debug, Clone, PartialEq)]
pub struct Message {
    pub role: String,
    pub content: Content,
}

/// Tool structure
#[derive(Debug, Clone, PartialEq)]
pub struct Tool {
    pub name: String,
    pub description: String,
    /// The tool's input schema, as compact JSON text.
    pub input_schema: String,
}

/// Tool choice structure
#[derive(Debug, Clone, PartialEq)]
pub enum ToolChoice {
    Auto,
    Any,
    Tool { name: String },
}

/// Request structure for the messages endpoint
#[derive(Debug, Clone, PartialEq)]
pub struct MessagesRequest {
    /// The model that will complete your prompt
    pub model: Option<String>,
    /// Messages to send to the model
    pub messages: Vec<Message>,
    /// System prompt
    pub system: Option<String>,
    /// Sampling temperature, as the bit pattern of an `f32`
    pub temperature_bits: u32,
    /// Maximum number of tokens to generate
    pub max_tokens: u32,
    /// Whether to stream the response
    pub stream: bool,
    /// Tools available to the model
    pub tools: Option<Vec<Tool>>,
    /// How to handle tool usage
    pub tool_choice: Option<ToolChoice>,
}

/// Usage structure
#[derive(Debug, Clone, Copy, PartialEq, Eq, Structural)]
pub struct Usage {
    pub input_tokens: u32,
    pub output_tokens: u32,
}

/// Response structure for the messages endpoint
#[derive(Debug, Clone, PartialEq)]
pub struct MessagesResponse {
    pub id: String,
    pub response_type: String,
    pub model: String,
    pub role: String,
    pub content: Vec<ContentBlock>,
    pub stop_reason: Option<String>,
    pub stop_sequence: Option<String>,
    pub usage: Usage,
}

/// Abstract value of a [`MessagesResponse`].
pub struct MessagesResponseView {
    pub id: Seq<char>,
    pub response_type: Seq<char>,
    pub model: Seq<char>,
    pub role: Seq<char>,
    pub content: Seq<ApiBlockView>,
    pub stop_reason: Option<Seq<char>>,
    pub stop_sequence: Option<Seq<char>>,
    pub usage: Usage,
}

impl DeepView for MessagesResponse {
    type V = MessagesResponseView;

    open spec fn deep_view(&self) -> MessagesResponseView {
        MessagesResponseView {
            id: self.id@,
            response_type: self.response_type@,
            model: self.model@,
            role: self.role@,
            content: self.content.deep_view(),
            stop_reason: self.stop_reason.deep_view(),
            stop_sequence: self.stop_sequence.deep_view(),
            usage: self.usage,
        }
    }
}

/// Error details structure
#[derive(Debug, Clone, PartialEq)]
pub struct ErrorDetails {
    pub error_type: String,
    pub message: String,
}

/// Error response structure
#[derive(Debug, Clone, PartialEq)]
pub struct ErrorResponse {
    pub response_type: String,
    pub error: ErrorDetails,
}

// ---------------------------------------------------------------------
// Request conversion
// ---------------------------------------------------------------------

/// A text block.
pub open spec fn text_block_view(t: Seq<char>) -> ContentBlockView {
    ContentBlockView {
        content_type: "text"@,
        text: Some(t),
        source: None,
        id: None,
        name: None,
        input: None,
        tool_use_id: None,
        is_error: None,
    }
}

/// A text block holding `text`.
pub fn text_block(text: String) -> (r: ProviderContentBlock)
    ensures
        r.deep_view() == text_block_view(text@),
{
    ProviderContentBlock {
        content_type: String::from_str("text"),
        text: Some(text),
        source: None,
        id: None,
        name: None,
        input: None,
        tool_use_id: None,
        is_error: None,
    }
}

/// The provider-neutral block for an API block.
pub open spec fn converted_block(b: ApiBlockView) -> ContentBlockView {
    match b {
        ApiBlockView::Text { text } => text_block_view(text),
        ApiBlockView::Image { source } => ContentBlockView {
            content_type: "image"@,
            text: None,
            source: Some(source),
            id: None,
            name: None,
            input: None,
            tool_use_id: None,
            is_error: None,
        },
        ApiBlockView::ToolUse { id, name, input } => ContentBlockView {
            content_type: "tool_use"@,
            text: None,
            source: None,
            id: Some(id),
            name: Some(name),
            input: Some(input),
            tool_use_id: None,
            is_error: None,
        },
        ApiBlockView::ToolResult { tool_use_id, content, is_error } => ContentBlockView {
            content_type: "tool_result"@,
            text: Some(content),
            source: None,
            id: None,
            name: None,
            input: None,
            tool_use_id: Some(tool_use_id),
            is_error,
        },
    }
}

/// Converts an API block to the provider-neutral block.
pub fn convert_anthropic_block(block: &ContentBlock) -> (r: ProviderContentBlock)
    ensures
        r.deep_view() == converted_block(block.deep_view()),
{
    match block {
        ContentBlock::Text { text } => text_block(text.clone()),
        ContentBlock::Image { source } => ProviderContentBlock {
            content_type: String::from_str("image"),
            text: None,
            source: Some(
                ProviderContentSource {
                    source_type: source.source_type.clone(),
                    media_type: source.media_type.clone(),
                    data: source.data.clone(),
                },
            ),
            id: None,
            name: None,
            input: None,
            tool_use_id: None,
            is_error: None,
        },
        ContentBlock::ToolUse { id, name, input } => ProviderContentBlock {
            content_type: String::from_str("tool_use"),
            text: None,
            source: None,
            id: Some(id.clone()),
            name: Some(name.clone()),
            input: Some(input.clone()),
            tool_use_id: None,
            is_error: None,
        },
        ContentBlock::ToolResult { tool_use_id, content, is_error } => ProviderContentBlock {
            content_type: String::from_str("tool_result"),
            text: Some(content.clone()),
            source: None,
            id: None,
            name: None,
            input: None,
            tool_use_id: Some(tool_use_id.clone()),
            is_error: *is_error,
        },
    }
}

/// The provider-neutral blocks for a message's content: a bare string is
/// one text block.
pub open spec fn converted_content(c: Content) -> Seq<ContentBlockView> {
    match c {
        Content::Text(t) => seq![text_block_view(t@)],
        Content::Blocks(bs) => bs.deep_view().map_values(|b: ApiBlockView| converted_block(b)),
    }
}

/// The provider-neutral message for an API message.
pub open spec fn converted_api_message(m: Message) -> MessageView {
    MessageView { role: m.role@, content: converted_content(m.content) }
}

/// The system message that leads the conversation, when a non-empty
/// system prompt is given.
pub open spec fn system_messages(system: Option<Seq<char>>) -> Seq<MessageView> {
    match system {
        Some(s) => if s.len() > 0 {
            seq![MessageView { role: "system"@, content: seq![text_block_view(s)] }]
        } else {
            Seq::empty()
        },
        None => Seq::empty(),
    }
}

/// The provider-neutral form of a tool choice.
pub open spec fn converted_tool_choice(c: ToolChoice) -> ToolChoiceView {
    match c {
        ToolChoice::Auto => ToolChoiceView::Auto,
        ToolChoice::Any => ToolChoiceView::Any,
        ToolChoice::Tool { name } => ToolChoiceView::Tool(name@),
    }
}

/// The provider-neutral form of a tool.
pub open spec fn converted_api_tool(t: Tool) -> ToolView {
    ToolView { name: t.name@, description: t.description@, input_schema: t.input_schema@ }
}

/// The completion request for an API request: the system prompt becomes a
/// leading system message, each message's content becomes blocks, and the
/// sampling settings are carried over.
pub open spec fn completion_request_for(r: MessagesRequest) -> CompletionRequestView {
    CompletionRequestView {
        model: text_or_empty(r.model.deep_view()),
        messages: system_messages(r.system.deep_view()) + r.messages@.map_values(
            |m: Message| converted_api_message(m),
        ),
        temperature_bits: Some(r.temperature_bits),
        max_tokens: Some(r.max_tokens),
        stream: Some(r.stream),
        tools: match r.tools {
            Some(ts) => Some(ts@.map_values(|t: Tool| converted_api_tool(t))),
            None => None,
        },
        tool_choice: match r.tool_choice {
            Some(c) => Some(converted_tool_choice(c)),
            None => None,
        },
    }
}

/// Whether the tool choice `sent` to the provider is the one the caller
/// `asked` for: a named tool stays forced under that same name, `auto`
/// stays `auto`, `any` stays `any`, and no choice stays none.
pub open spec fn keeps_tool_choice(asked: Option<ToolChoice>, sent: Option<ToolChoiceView>) -> bool {
    match asked {
        None => sent is None,
        Some(ToolChoice::Auto) => sent == Some(ToolChoiceView::Auto),
        Some(ToolChoice::Any) => sent == Some(ToolChoiceView::Any),
        Some(ToolChoice::Tool { name }) => sent is Some && sent.unwrap() is Tool
            && sent.unwrap()->Tool_0 == name@,
    }
}

/// The completion request made from an API request forces the tool that the
/// caller forced, under the same name, and otherwise keeps its tool choice.
pub proof fn lemma_completion_request_keeps_tool_choice(request: MessagesRequest)
    ensures
        keeps_tool_choice(request.tool_choice, completion_request_for(request).tool_choice),
{
}

/// The completion request made from an API request keeps the request's
/// settings: its token limit, temperature and streaming flag; a non-empty
/// system prompt is sent as a leading `system` message, and each message
/// of the request follows in order under its own role.
pub proof fn lemma_completion_request_keeps_settings(request: MessagesRequest)
    ensures
        completion_request_for(request).max_tokens == Some(request.max_tokens),
        completion_request_for(request).temperature_bits == Some(request.temperature_bits),
        completion_request_for(request).stream == Some(request.stream),
        ({
            let lead: int = if request.system is Some && request.system.unwrap()@.len() > 0 { 1 } else { 0 };
            let out = completion_request_for(request).messages;
            &&& out.len() == lead + request.messages.len()
            &&& (lead == 1 ==> out[0].role == "system"@)
            &&& forall|i: int| 0 <= i < request.messages.len() ==> (#[trigger] out[lead + i]).role == request.messages@[i].role@
        }),
{
    let lead: int = if request.system is Some && request.system.unwrap()@.len() > 0 { 1 } else { 0 };
    let sys = system_messages(request.system.deep_view());
    assert(sys.len() == lead);
    let rest = request.messages@.map_values(|m: Message| converted_api_message(m));
    let out = completion_request_for(request).messages;
    assert(out == sys + rest);
    assert forall|i: int| 0 <= i < request.messages.len() implies (#[trigger] out[lead + i]).role == request.messages@[i].role@ by {
        assert(out[lead + i] == rest[i]);
    }
}

fn convert_content(content: &Content) -> (r: Vec<ProviderContentBlock>)
    ensures
        r.deep_view() == converted_content(*content),
{
    match content {
        Content::Text(text) => {
            let mut v: Vec<ProviderContentBlock> = Vec::new();
            v.push(text_block(text.clone()));
            assert(v.deep_view() =~= seq![text_block_view(text@)]);
            v
        },
        Content::Blocks(blocks) => {
            let mut v: Vec<ProviderContentBlock> = Vec::new();
            let ghost bs = blocks.deep_view();
            let mut i: usize = 0;
            while i < blocks.len()
                invariant
                    i <= blocks.len(),
                    bs == blocks.deep_view(),
                    v.deep_view() == bs.take(i as int).map_values(|b: ApiBlockView| converted_block(b)),
                decreases blocks.len() - i,
            {
                let ghost before = v.deep_view();
                v.push(convert_anthropic_block(&blocks[i]));
                assert(bs.take(i + 1) == bs.take(i as int).push(bs[i as int]));
                assert(bs.take(i as int).push(bs[i as int]).map_values(|b: ApiBlockView| converted_block(b))
                    =~= before.push(converted_block(bs[i as int])));
                i = i + 1;
            }
            assert(bs.take(blocks.len() as int) == bs);
            v
        },
    }
}

/// Convert Anthropic API request to internal completion request
pub fn convert_to_completion_request(request: &MessagesRequest) -> (r: Result<CompletionRequest, u16>)
    ensures
        r matches Ok(c) && c.deep_view() == completion_request_for(*request),
        (r matches Ok(c) && keeps_tool_choice(request.tool_choice, c.deep_view().tool_choice)),
{
    let mut messages: Vec<ProviderMessage> = Vec::new();
    if let Some(system) = &request.system {
        if system.unicode_len() > 0 {
            let mut content: Vec<ProviderContentBlock> = Vec::new();
            content.push(text_block(system.clone()));
            assert(content.deep_view() =~= seq![text_block_view(system@)]);
            messages.push(ProviderMessage { role: String::from_str("system"), content });
            assert(messages.deep_view() =~= system_messages(request.system.deep_view()));
        }
    }
    let ghost lead = messages.deep_view();
    assert(lead =~= system_messages(request.system.deep_view()));
    let mut i: usize = 0;
    while i < request.messages.len()
        invariant
            i <= request.messages.len(),
            messages.deep_view() == lead + request.messages@.take(i as int).map_values(
                |m: Message| converted_api_message(m),
            ),
        decreases request.messages.len() - i,
    {
        let msg = &request.messages[i];
        let ghost before = messages.deep_view();
        messages.push(ProviderMessage { role: msg.role.clone(), content: convert_content(&msg.content) });
        assert(request.messages@.take(i + 1) == request.messages@.take(i as int).push(*msg));
        assert(lead + request.messages@.take(i as int).push(*msg).map_values(
            |m: Message| converted_api_message(m),
        ) =~= before.push(converted_api_message(*msg)));
        i = i + 1;
    }
    assert(request.messages@.take(request.messages.len() as int) == request.messages@);
    let tools = match &request.tools {
        Some(ts) => {
            let mut out: Vec<ProviderTool> = Vec::new();
            let mut j: usize = 0;
            while j < ts.len()
                invariant
                    j <= ts.len(),
                    out.deep_view() == ts@.take(j as int).map_values(|t: Tool| converted_api_tool(t)),
                decreases ts.len() - j,
            {
                let t = &ts[j];
                let ghost before = out.deep_view();
                out.push(
                    ProviderTool {
                        name: t.name.clone(),
                        description: t.description.clone(),
                        input_schema: t.input_schema.clone(),
                    },
                );
                assert(ts@.take(j + 1) == ts@.take(j as int).push(*t));
                assert(ts@.take(j as int).push(*t).map_values(|t: Tool| converted_api_tool(t))
                    =~= before.push(converted_api_tool(*t)));
                j = j + 1;
            }
            assert(ts@.take(ts.len() as int) == ts@);
            Some(out)
        },
        None => None,
    };
    let tool_choice = match &request.tool_choice {
        Some(ToolChoice::Auto) => Some(ProviderToolChoice::Auto),
        Some(ToolChoice::Any) => Some(ProviderToolChoice::Any),
        Some(ToolChoice::Tool { name }) => Some(ProviderToolChoice::Tool(name.clone())),
        None => None,
    };
    proof {
        lemma_completion_request_keeps_tool_choice(*request);
    }
    Ok(
        CompletionRequest {
            model: string_or_empty(&request.model),
            messages,
            temperature_bits: Some(request.temperature_bits),
            max_tokens: Some(request.max_tokens),
            stream: Some(request.stream),
            tools,
            tool_choice,
        },
    )
}

/// The status that rejects a request before it is routed, if any: a
/// request that allows no tokens is a bad request.
pub fn request_rejection(request: &MessagesRequest) -> (r: Option<u16>)
    ensures
        r == (if request.max_tokens == 0 {
            Some(400u16)
        } else {
            None
        }),
{
    if request.max_tokens == 0 {
        Some(400)
    } else {
        None
    }
}

// ---------------------------------------------------------------------
// Response conversion
// ---------------------------------------------------------------------

/// The Anthropic stop reason for an OpenAI-style finish reason.
pub open spec fn stop_reason_for(finish_reason: Option<Seq<char>>) -> Seq<char> {
    match finish_reason {
        Some(r) => if r == "tool_calls"@ {
            "tool_use"@
        } else if r == "length"@ {
            "max_tokens"@
        } else {
            "end_turn"@
        },
        None => "end_turn"@,
    }
}

/// Map an OpenAI-style finish_reason to an Anthropic stop_reason
pub fn map_stop_reason(finish_reason: Option<&str>) -> (r: String)
    ensures
        r@ == stop_reason_for(
            match finish_reason {
                Some(s) => Some(s@),
                None => None,
            },
        ),
{
    match finish_reason {
        Some(reason) => if str_eq(reason, "tool_calls") {
            String::from_str("tool_use")
        } else if str_eq(reason, "length") {
            String::from_str("max_tokens")
        } else {
            String::from_str("end_turn")
        },
        None => String::from_str("end_turn"),
    }
}

/// The API block for a provider-neutral block: tool calls stay tool
/// calls (a missing input becomes `null`), everything else becomes text.
pub open spec fn anthropic_block_for(b: ContentBlockView) -> ApiBlockView {
    if b.content_type == "tool_use"@ {
        ApiBlockView::ToolUse {
            id: text_or_empty(b.id),
            name: text_or_empty(b.name),
            input: match b.input {
                Some(i) => i,
                None => "null"@,
            },
        }
    } else {
        ApiBlockView::Text { text: text_or_empty(b.text) }
    }
}

/// Converts a provider-neutral block to an API block.
pub fn convert_provider_block_to_anthropic(block: &ProviderContentBlock) -> (r: ContentBlock)
    ensures
        r.deep_view() == anthropic_block_for(block.deep_view()),
{
    if str_eq(block.content_type.as_str(), "tool_use") {
        ContentBlock::ToolUse {
            id: string_or_empty(&block.id),
            name: string_or_empty(&block.name),
            input: match &block.input {
                Some(i) => i.clone(),
                None => String::from_str("null"),
            },
        }
    } else {
        ContentBlock::Text { text: string_or_empty(&block.text) }
    }
}

/// An empty text block.
pub open spec fn empty_text_view() -> ApiBlockView {
    ApiBlockView::Text { text: Seq::empty() }
}

/// The API reply for a completion response: the first choice's message
/// (an empty text block when there is none, or it is empty) and its stop
/// reason, with the token counts.
pub open spec fn messages_response_for(r: CompletionResponse) -> MessagesResponseView {
    let choices = r.choices@;
    let content = if choices.len() > 0 {
        match choices[0].message {
            Some(m) => if m.content.len() > 0 {
                m.content.deep_view().map_values(|b: ContentBlockView| anthropic_block_for(b))
            } else {
                seq![empty_text_view()]
            },
            None => seq![empty_text_view()],
        }
    } else {
        seq![empty_text_view()]
    };
    let stop = if choices.len() > 0 {
        stop_reason_for(choices[0].finish_reason.deep_view())
    } else {
        "end_turn"@
    };
    MessagesResponseView {
        id: r.id@,
        response_type: "message"@,
        model: r.model@,
        role: "assistant"@,
        content,
        stop_reason: Some(stop),
        stop_sequence: None,
        usage: match r.usage {
            Some(u) => Usage { input_tokens: u.prompt_tokens, output_tokens: u.completion_tokens },
            None => Usage { input_tokens: 0, output_tokens: 0 },
        },
    }
}

fn empty_text_content() -> (r: Vec<ContentBlock>)
    ensures
        r.deep_view() == seq![empty_text_view()],
{
    let mut v: Vec<ContentBlock> = Vec::new();
    v.push(ContentBlock::Text { text: String::new() });
    assert(v.deep_view() =~= seq![empty_text_view()]);
    v
}

/// Handle regular (non-streaming) response
pub fn handle_regular_response(response: &CompletionResponse) -> (r: MessagesResponse)
    ensures
        r.deep_view() == messages_response_for(*response),
{
    let usage = match &response.usage {
        Some(u) => Usage { input_tokens: u.prompt_tokens, output_tokens: u.completion_tokens },
        None => Usage { input_tokens: 0, output_tokens: 0 },
    };
    let (content, stop_reason) = if response.choices.len() > 0 {
        let choice = &response.choices[0];
        let content = match &choice.message {
            Some(message) => if message.content.len() > 0 {
                let mut v: Vec<ContentBlock> = Vec::new();
                let ghost bs = message.content.deep_view();
                let mut i: usize = 0;
                while i < message.content.len()
                    invariant
                        i <= message.content.len(),
                        bs == message.content.deep_view(),
                        v.deep_view() == bs.take(i as int).map_values(
                            |b: ContentBlockView| anthropic_block_for(b),
                        ),
                    decreases message.content.len() - i,
                {
                    let ghost before = v.deep_view();
                    v.push(convert_provider_block_to_anthropic(&message.content[i]));
                    assert(bs.take(i + 1) == bs.take(i as int).push(bs[i as int]));
                    assert(bs.take(i as int).push(bs[i as int]).map_values(
                        |b: ContentBlockView| anthropic_block_for(b),
                    ) =~= before.push(anthropic_block_for(bs[i as int])));
                    i = i + 1;
                }
                assert(bs.take(message.content.len() as int) == bs);
                v
            } else {
                empty_text_content()
            },
            None => empty_text_content(),
        };
        let reason = match &choice.finish_reason {
            Some(r) => map_stop_reason(Some(r.as_str())),
            None => map_stop_reason(None),
        };
        (content, reason)
    } else {
        (empty_text_content(), String::from_str("end_turn"))
    };
    MessagesResponse {
        id: response.id.clone(),
        response_type: String::from_str("message"),
        model: response.model.clone(),
        role: String::from_str("assistant"),
        content,
        stop_reason: Some(stop_reason),
        stop_sequence: None,
        usage,
    }
}

/// Create error response
pub fn create_error_response(message: &str, error_type: &str) -> (r: ErrorResponse)
    ensures
        r.response_type@ == "error"@,
        r.error.error_type@ == error_type@,
        r.error.message@ == message@,
{
    ErrorResponse {
        response_type: String::from_str("error"),
        error: ErrorDetails {
            error_type: String::from_str(error_type),
            message: String::from_str(message),
        },
    }
}

// ---------------------------------------------------------------------
// Streaming: translate provider chunks into the Anthropic SSE event
// sequence (message_start / content_block_* / message_delta /
// message_stop)
// ---------------------------------------------------------------------

/// The `message_start` payload (its `content` is always an empty list).
#[derive(Debug, Clone, PartialEq)]
pub struct SseMessageStart {
    pub id: String,
    pub msg_type: String,
    pub role: String,
    pub model: String,
    pub stop_reason: Option<String>,
    pub stop_sequence: Option<String>,
    pub usage: Usage,
}

/// The block a `content_block_start` opens.
#[derive(Debug, Clone, PartialEq)]
pub enum SseContentBlock {
    Text { text: String },
    /// `input` is compact JSON text.
    ToolUse { id: String, name: String, input: String },
}

/// The increment a `content_block_delta` carries.
#[derive(Debug, Clone, PartialEq)]
pub enum SseDelta {
    TextDelta { text: String },
    InputJsonDelta { partial_json: String },
}

/// The `message_delta` payload.
#[derive(Debug, Clone, PartialEq)]
pub struct SseMessageDelta {
    pub stop_reason: Option<String>,
    pub stop_sequence: Option<String>,
}

/// The payload of an `error` event.
#[derive(Debug, Clone, PartialEq)]
pub struct SseError {
    pub error_type: String,
    pub message: String,
}

/// One event of the Anthropic stream.
#[derive(Debug, Clone, PartialEq)]
pub enum StreamEvent {
    MessageStart { message: SseMessageStart },
    ContentBlockStart { index: usize, content_block: SseContentBlock },
    ContentBlockDelta { index: usize, delta: SseDelta },
    ContentBlockStop { index: usize },
    MessageDelta { delta: SseMessageDelta, usage: Usage },
    MessageStop,
    Error { error: SseError },
}

/// Abstract value of a [`StreamEvent`].
pub enum EventView {
    MessageStart { id: Seq<char>, model: Seq<char> },
    TextBlockStart { index: usize },
    ToolBlockStart { index: usize, id: Seq<char>, name: Seq<char> },
    TextDelta { index: usize, text: Seq<char> },
    InputJsonDelta { index: usize, partial_json: Seq<char> },
    BlockStop { index: usize },
    MessageDelta { stop_reason: Seq<char>, usage: Usage },
    MessageStop,
    Error { error_type: Seq<char>, message: Seq<char> },
}

/// The constant parts of each event: a message start names a message
/// from the assistant with no stop reason and zero usage; a tool block
/// starts with an empty input object; a message delta has no stop
/// sequence.
pub open spec fn event_constants_hold(e: StreamEvent) -> bool {
    match e {
        StreamEvent::MessageStart { message } => message.msg_type@ == "message"@ && message.role@
            == "assistant"@ && message.stop_reason is None && message.stop_sequence is None
            && message.usage == (Usage { input_tokens: 0, output_tokens: 0 }),
        StreamEvent::ContentBlockStart { content_block, .. } => match content_block {
            SseContentBlock::Text { text } => text@ == Seq::<char>::empty(),
            SseContentBlock::ToolUse { input, .. } => input@ == "{}"@,
        },
        StreamEvent::MessageDelta { delta, .. } => delta.stop_reason is Some && delta.stop_sequence is None,
        _ => true,
    }
}

impl DeepView for StreamEvent {
    type V = EventView;

    open spec fn deep_view(&self) -> EventView {
        match self {
            StreamEvent::MessageStart { message } => EventView::MessageStart {
                id: message.id@,
                model: message.model@,
            },
            StreamEvent::ContentBlockStart { index, content_block } => match content_block {
                SseContentBlock::Text { .. } => EventView::TextBlockStart { index: *index },
                SseContentBlock::ToolUse { id, name, .. } => EventView::ToolBlockStart {
                    index: *index,
                    id: id@,
                    name: name@,
                },
            },
            StreamEvent::ContentBlockDelta { index, delta } => match delta {
                SseDelta::TextDelta { text } => EventView::TextDelta { index: *index, text: text@ },
                SseDelta::InputJsonDelta { partial_json } => EventView::InputJsonDelta {
                    index: *index,
                    partial_json: partial_json@,
                },
            },
            StreamEvent::ContentBlockStop { index } => EventView::BlockStop { index: *index },
            StreamEvent::MessageDelta { delta, usage } => EventView::MessageDelta {
                stop_reason: match delta.stop_reason {
                    Some(r) => r@,
                    None => Seq::empty(),
                },
                usage: *usage,
            },
            StreamEvent::MessageStop => EventView::MessageStop,
            StreamEvent::Error { error } => EventView::Error {
                error_type: error.error_type@,
                message: error.message@,
            },
        }
    }
}

/// The event name of the stream event.
pub fn event_name(event: &StreamEvent) -> (r: &'static str)
    ensures
        r@ == match event {
            StreamEvent::MessageStart { .. } => "message_start"@,
            StreamEvent::ContentBlockStart { .. } => "content_block_start"@,
            StreamEvent::ContentBlockDelta { .. } => "content_block_delta"@,
            StreamEvent::ContentBlockStop { .. } => "content_block_stop"@,
            StreamEvent::MessageDelta { .. } => "message_delta"@,
            StreamEvent::MessageStop => "message_stop"@,
            StreamEvent::Error { .. } => "error"@,
        },
{
    match event {
        StreamEvent::MessageStart { .. } => "message_start",
        StreamEvent::ContentBlockStart { .. } => "content_block_start",
        StreamEvent::ContentBlockDelta { .. } => "content_block_delta",
        StreamEvent::ContentBlockStop { .. } => "content_block_stop",
        StreamEvent::MessageDelta { .. } => "message_delta",
        StreamEvent::MessageStop => "message_stop",
        StreamEvent::Error { .. } => "error",
    }
}

/// The kind of the content block being streamed.
#[derive(Debug, Clone, Copy, PartialEq, Eq, Structural)]
pub enum BlockKind {
    Text,
    Tool,
}

/// Where the translation of one streamed reply stands.
pub struct StreamCtx {
    started: bool,
    input_tokens: u32,
    output_tokens: u32,
    current_block: Option<(usize, BlockKind)>,
    next_index: usize,
    tool_indices: std::collections::HashMap<usize, usize>,
    stop_reason: Option<String>,
}

/// Abstract value of a [`StreamCtx`].
pub struct CtxView {
    pub started: bool,
    pub input_tokens: u32,
    pub output_tokens: u32,
    pub current_block: Option<(usize, BlockKind)>,
    pub next_index: usize,
    pub tool_indices: Map<usize, usize>,
    pub stop_reason: Option<Seq<char>>,
}

impl StreamCtx {
    /// Abstract value of the translation state.
    pub closed spec fn view_ctx(&self) -> CtxView {
        CtxView {
            started: self.started,
            input_tokens: self.input_tokens,
            output_tokens: self.output_tokens,
            current_block: self.current_block,
            next_index: self.next_index,
            tool_indices: self.tool_indices@,
            stop_reason: self.stop_reason.deep_view(),
        }
    }

    /// The state before any chunk arrived.
    pub fn new() -> (r: Self)
        ensures
            r.view_ctx() == (CtxView {
                started: false,
                input_tokens: 0,
                output_tokens: 0,
                current_block: None,
                next_index: 0,
                tool_indices: Map::empty(),
                stop_reason: None,
            }),
    {
        Self {
            started: false,
            input_tokens: 0,
            output_tokens: 0,
            current_block: None,
            next_index: 0,
            tool_indices: std::collections::HashMap::new(),
            stop_reason: None,
        }
    }
}

/// The event that opens a block at `index`.
pub open spec fn block_start_view(index: usize, kind: BlockKind, id: Option<Seq<char>>, name: Option<Seq<char>>) -> EventView {
    match kind {
        BlockKind::Text => EventView::TextBlockStart { index },
        BlockKind::Tool => EventView::ToolBlockStart {
            index,
            id: text_or_empty(id),
            name: text_or_empty(name),
        },
    }
}

/// Whether text of `kind` continues the open block: both are text.
pub open spec fn continues_text_block(c: CtxView, kind: BlockKind) -> bool {
    match c.current_block {
        Some((_, k)) => k == kind && kind == BlockKind::Text,
        None => false,
    }
}

/// The index of the open block (zero when none is open).
pub open spec fn open_block_index(c: CtxView) -> usize {
    match c.current_block {
        Some((i, _)) => i,
        None => 0,
    }
}

/// Making sure a block of `kind` is open: text continues an open text
/// block; otherwise the open block (if any) is stopped and a new block
/// with the next index is started. Gives the new state, the events and
/// the block's index.
pub open spec fn ensured_block(c: CtxView, kind: BlockKind, id: Option<Seq<char>>, name: Option<Seq<char>>) -> (CtxView, Seq<EventView>, usize) {
    if continues_text_block(c, kind) {
        (c, Seq::empty(), open_block_index(c))
    } else {
        let stop = match c.current_block {
            Some((idx, _)) => seq![EventView::BlockStop { index: idx }],
            None => Seq::empty(),
        };
        let index = c.next_index;
        (
            CtxView { current_block: Some((index, kind)), next_index: (index + 1) as usize, ..c },
            stop.push(block_start_view(index, kind, id, name)),
            index,
        )
    }
}

/// One streamed tool-call fragment: a new tool call opens its own block
/// (remembered by the call's index), and non-empty arguments become an
/// input delta of the call's block.
pub open spec fn tool_call_step(c: CtxView, tc: ToolCallDeltaView) -> (CtxView, Seq<EventView>) {
    let (c1, e1, idx) = if c.tool_indices.contains_key(tc.index) {
        (c, Seq::empty(), c.tool_indices[tc.index])
    } else {
        let (cc, ev, i) = ensured_block(c, BlockKind::Tool, tc.id, tc.name);
        (CtxView { tool_indices: cc.tool_indices.insert(tc.index, i), ..cc }, ev, i)
    };
    match tc.arguments {
        Some(a) => if a.len() > 0 {
            (c1, e1.push(EventView::InputJsonDelta { index: idx, partial_json: a }))
        } else {
            (c1, e1)
        },
        None => (c1, e1),
    }
}

/// The fragments processed in order.
pub open spec fn tool_calls_steps(c: CtxView, tcs: Seq<ToolCallDeltaView>) -> (CtxView, Seq<EventView>)
    decreases tcs.len(),
{
    if tcs.len() == 0 {
        (c, Seq::empty())
    } else {
        let (c1, e1) = tool_calls_steps(c, tcs.drop_last());
        let (c2, e2) = tool_call_step(c1, tcs.last());
        (c2, e1 + e2)
    }
}

/// The number of tool-call fragments in the first choice of a chunk.
pub open spec fn chunk_tool_calls(r: CompletionResponseView) -> Seq<ToolCallDeltaView> {
    if r.choices.len() > 0 {
        match r.choices[0].delta {
            Some(d) => match d.tool_calls {
                Some(tcs) => tcs,
                None => Seq::empty(),
            },
            None => Seq::empty(),
        }
    } else {
        Seq::empty()
    }
}

/// The events for one chunk: `message_start` first if the stream had not
/// started; usage and stop reason are remembered; non-empty text of the
/// first choice goes to a text block, tool-call fragments to tool blocks.
pub open spec fn chunk_events(c: CtxView, r: CompletionResponseView) -> (CtxView, Seq<EventView>) {
    let (c1, e1) = if !c.started {
        (CtxView { started: true, ..c }, seq![EventView::MessageStart { id: r.id, model: r.model }])
    } else {
        (c, Seq::empty())
    };
    let c2 = match r.usage {
        Some(u) => CtxView {
            input_tokens: u.prompt_tokens,
            output_tokens: u.completion_tokens,
            ..c1
        },
        None => c1,
    };
    if r.choices.len() == 0 {
        (c2, e1)
    } else {
        let choice = r.choices[0];
        let c3 = match choice.finish_reason {
            Some(reason) => CtxView { stop_reason: Some(stop_reason_for(Some(reason))), ..c2 },
            None => c2,
        };
        match choice.delta {
            None => (c3, e1),
            Some(d) => {
                let (c4, e2) = match d.content {
                    Some(t) => if t.len() > 0 {
                        let (cc, ev, idx) = ensured_block(c3, BlockKind::Text, None, None);
                        (cc, e1 + ev.push(EventView::TextDelta { index: idx, text: t }))
                    } else {
                        (c3, e1)
                    },
                    None => (c3, e1),
                };
                match d.tool_calls {
                    Some(tcs) => {
                        let (c5, e3) = tool_calls_steps(c4, tcs);
                        (c5, e2 + e3)
                    },
                    None => (c4, e2),
                }
            },
        }
    }
}

/// The events that end a started stream: the open block is stopped, then
/// `message_delta` with the stop reason (`end_turn` when none was given)
/// and the usage, then `message_stop`.
pub open spec fn closing_events_of(c: CtxView) -> (CtxView, Seq<EventView>) {
    let stop = match c.current_block {
        Some((idx, _)) => seq![EventView::BlockStop { index: idx }],
        None => Seq::empty(),
    };
    (
        CtxView { current_block: None, ..c },
        stop + seq![
            EventView::MessageDelta {
                stop_reason: match c.stop_reason {
                    Some(r) => r,
                    None => "end_turn"@,
                },
                usage: Usage { input_tokens: c.input_tokens, output_tokens: c.output_tokens },
            },
            EventView::MessageStop,
        ],
    )
}

/// Room for `n` more blocks without the block counter overflowing.
pub open spec fn room_for_blocks(c: CtxView, n: nat) -> bool {
    c.next_index + n <= usize::MAX
}

fn ensure_block(
    ctx: &mut StreamCtx,
    events: &mut Vec<StreamEvent>,
    kind: BlockKind,
    id: Option<String>,
    name: Option<String>,
) -> (r: usize)
    requires
        room_for_blocks(old(ctx).view_ctx(), 1),
        forall|i: int| 0 <= i < old(events).len() ==> event_constants_hold(#[trigger] old(events)@[i]),
    ensures
        ({
            let (c, ev, idx) = ensured_block(old(ctx).view_ctx(), kind, id.deep_view(), name.deep_view());
            &&& final(ctx).view_ctx() == c
            &&& final(events).deep_view() == old(events).deep_view() + ev
            &&& r == idx
        }),
        final(ctx).next_index <= old(ctx).next_index + 1,
        forall|i: int| 0 <= i < final(events).len() ==> event_constants_hold(#[trigger] final(events)@[i]),
{
    if let Some((idx, current_kind)) = ctx.current_block {
        if current_kind == kind && kind == BlockKind::Text {
            assert(events.deep_view() =~= old(events).deep_view() + Seq::<EventView>::empty());
            return idx;
        }
    }
    let ghost before = events.deep_view();
    if let Some((idx, _)) = ctx.current_block {
        events.push(StreamEvent::ContentBlockStop { index: idx });
    }
    let index = ctx.next_index;
    ctx.next_index = ctx.next_index + 1;
    ctx.current_block = Some((index, kind));
    let content_block = match kind {
        BlockKind::Text => SseContentBlock::Text { text: String::new() },
        BlockKind::Tool => SseContentBlock::ToolUse {
            id: string_or_empty(&id),
            name: string_or_empty(&name),
            input: String::from_str("{}"),
        },
    };
    events.push(StreamEvent::ContentBlockStart { index, content_block });
    let ghost stop = match old(ctx).current_block {
        Some((i, _)) => seq![EventView::BlockStop { index: i }],
        None => Seq::<EventView>::empty(),
    };
    assert(events.deep_view() =~= before + stop.push(block_start_view(index, kind, id.deep_view(), name.deep_view())));
    index
}

/// Whether `e` is the `message_start` for the chunk `resp`: it names the
/// chunk's id as the message id and the chunk's model as the model.
pub open spec fn opens_message_of(e: StreamEvent, resp: CompletionResponse) -> bool {
    match e {
        StreamEvent::MessageStart { message } => message.id@ == resp.id@ && message.model@ == resp.model@,
        _ => false,
    }
}

/// The first chunk of a stream opens it with a `message_start` whose message
/// id is that chunk's id and whose model is that chunk's model.
pub proof fn lemma_message_start_names_the_chunk(c: CtxView, r: CompletionResponseView)
    requires
        !c.started,
    ensures
        chunk_events(c, r).1.len() > 0,
        chunk_events(c, r).1[0] matches EventView::MessageStart { id, model } && id == r.id && model == r.model,
{
    lemma_message_start_comes_first(c, r);
}

/// A chunk that reports usage sets the counts that the closing
/// `message_delta` reports: its prompt tokens as the input tokens and its
/// completion tokens as the output tokens. A chunk without usage keeps the
/// counts as they were.
pub proof fn lemma_chunk_usage_sets_counts(c: CtxView, r: CompletionResponseView)
    ensures
        r.usage is Some ==> chunk_events(c, r).0.input_tokens == r.usage.unwrap().prompt_tokens
            && chunk_events(c, r).0.output_tokens == r.usage.unwrap().completion_tokens,
        r.usage is None ==> chunk_events(c, r).0.input_tokens == c.input_tokens
            && chunk_events(c, r).0.output_tokens == c.output_tokens,
{
    if r.choices.len() > 0 {
        match r.choices[0].delta {
            Some(d) => match d.tool_calls {
                Some(tcs) => {
                    let c0 = if !c.started { CtxView { started: true, ..c } } else { c };
                    let c2 = match r.usage {
                        Some(u) => CtxView { input_tokens: u.prompt_tokens, output_tokens: u.completion_tokens, ..c0 },
                        None => c0,
                    };
                    let c3 = match r.choices[0].finish_reason {
                        Some(reason) => CtxView { stop_reason: Some(stop_reason_for(Some(reason))), ..c2 },
                        None => c2,
                    };
                    let c4 = match d.content {
                        Some(t) => if t.len() > 0 {
                            ensured_block(c3, BlockKind::Text, None, None).0
                        } else {
                            c3
                        },
                        None => c3,
                    };
                    lemma_tool_calls_keep_started(c4, tcs);
                },
                None => {},
            },
            None => {},
        }
    }
}

/// Whether `e` is a text delta that carries exactly the text `t`.
pub open spec fn delta_carries_text(e: EventView, t: Seq<char>) -> bool {
    match e {
        EventView::TextDelta { text, .. } => text == t,
        _ => false,
    }
}

/// Non-empty text in the first choice of a chunk is passed on unchanged:
/// among the chunk's events is a text delta that carries exactly that text.
pub proof fn lemma_chunk_text_is_passed_on(c: CtxView, r: CompletionResponseView)
    requires
        r.choices.len() > 0,
        r.choices[0].delta is Some,
        r.choices[0].delta.unwrap().content is Some,
        r.choices[0].delta.unwrap().content.unwrap().len() > 0,
    ensures
        exists|j: int|
            0 <= j < chunk_events(c, r).1.len() && delta_carries_text(
                #[trigger] chunk_events(c, r).1[j],
                r.choices[0].delta.unwrap().content.unwrap(),
            ),
{
    let d = r.choices[0].delta.unwrap();
    let t = d.content.unwrap();
    let opening = if c.started {
        Seq::<EventView>::empty()
    } else {
        seq![EventView::MessageStart { id: r.id, model: r.model }]
    };
    let c0 = if !c.started { CtxView { started: true, ..c } } else { c };
    let c2 = match r.usage {
        Some(u) => CtxView { input_tokens: u.prompt_tokens, output_tokens: u.completion_tokens, ..c0 },
        None => c0,
    };
    let c3 = match r.choices[0].finish_reason {
        Some(reason) => CtxView { stop_reason: Some(stop_reason_for(Some(reason))), ..c2 },
        None => c2,
    };
    let (cc, evv, idx) = ensured_block(c3, BlockKind::Text, None, None);
    let e2 = opening + evv.push(EventView::TextDelta { index: idx, text: t });
    let j = e2.len() - 1;
    assert(delta_carries_text(e2[j], t));
    let ev = chunk_events(c, r).1;
    match d.tool_calls {
        Some(tcs) => {
            let e3 = tool_calls_steps(cc, tcs).1;
            assert(ev == e2 + e3);
            assert(ev[j] == e2[j]);
        },
        None => {
            assert(ev == e2);
        },
    }
    assert(delta_carries_text(ev[j], t));
}

/// Translates one chunk of the streamed reply into stream events.
pub fn process_chunk(ctx: &mut StreamCtx, resp: &CompletionResponse) -> (r: Vec<StreamEvent>)
    requires
        room_for_blocks(old(ctx).view_ctx(), chunk_tool_calls(resp.deep_view()).len() + 1),
    ensures
        ({
            let (c, ev) = chunk_events(old(ctx).view_ctx(), resp.deep_view());
            final(ctx).view_ctx() == c && r.deep_view() == ev
        }),
        forall|i: int| 0 <= i < r.len() ==> event_constants_hold(#[trigger] r@[i]),
        !old(ctx).view_ctx().started ==> r.len() > 0 && opens_message_of(r@[0], *resp),
{
    broadcast use vstd::std_specs::hash::group_hash_axioms;

    let ghost c0 = ctx.view_ctx();
    let ghost rv = resp.deep_view();
    let mut events: Vec<StreamEvent> = Vec::new();
    if !ctx.started {
        ctx.started = true;
        events.push(
            StreamEvent::MessageStart {
                message: SseMessageStart {
                    id: resp.id.clone(),
                    msg_type: String::from_str("message"),
                    role: String::from_str("assistant"),
                    model: resp.model.clone(),
                    stop_reason: None,
                    stop_sequence: None,
                    usage: Usage { input_tokens: 0, output_tokens: 0 },
                },
            },
        );
        assert(events.deep_view() =~= seq![EventView::MessageStart { id: rv.id, model: rv.model }]);
    } else {
        assert(events.deep_view() =~= Seq::<EventView>::empty());
    }
    if let Some(usage) = &resp.usage {
        ctx.input_tokens = usage.prompt_tokens;
        ctx.output_tokens = usage.completion_tokens;
    }
    if resp.choices.len() > 0 {
        let choice = &resp.choices[0];
        if let Some(reason) = &choice.finish_reason {
            ctx.stop_reason = Some(map_stop_reason(Some(reason.as_str())));
        }
        if let Some(delta) = &choice.delta {
            let ghost e1 = events.deep_view();
            if let Some(text) = &delta.content {
                if text.unicode_len() > 0 {
                    let idx = ensure_block(ctx, &mut events, BlockKind::Text, None, None);
                    let ghost mid = events.deep_view();
                    events.push(
                        StreamEvent::ContentBlockDelta {
                            index: idx,
                            delta: SseDelta::TextDelta { text: text.clone() },
                        },
                    );
                    assert(events.deep_view() =~= mid.push(EventView::TextDelta { index: idx, text: text@ }));
                }
            }
            if let Some(tool_calls) = &delta.tool_calls {
                let ghost c4 = ctx.view_ctx();
                let ghost e2 = events.deep_view();
                let ghost tcs = tool_calls.deep_view();
                assert(tcs == chunk_tool_calls(rv));
                let mut i: usize = 0;
                assert(e2 + Seq::<EventView>::empty() == e2);
                while i < tool_calls.len()
                    invariant
                        i <= tool_calls.len(),
                        tcs == tool_calls.deep_view(),
                        ctx.view_ctx() == tool_calls_steps(c4, tcs.take(i as int)).0,
                        events.deep_view() == e2 + tool_calls_steps(c4, tcs.take(i as int)).1,
                        ctx.next_index <= c4.next_index + i,
                        c4.next_index + tool_calls.len() <= usize::MAX,
                        forall|k: int| 0 <= k < events.len() ==> event_constants_hold(#[trigger] events@[k]),
                    decreases tool_calls.len() - i,
                {
                    let tc = &tool_calls[i];
                    assert(tcs.take(i + 1).drop_last() == tcs.take(i as int));
                    assert(tcs.take(i + 1).last() == tc.deep_view());
                    let ghost cb = ctx.view_ctx();
                    let ghost eb = events.deep_view();
                    let idx = match ctx.tool_indices.get(&tc.index) {
                        Some(existing) => {
                            assert(events.deep_view() =~= eb + Seq::<EventView>::empty());
                            *existing
                        },
                        None => {
                            let idx = ensure_block(
                                ctx,
                                &mut events,
                                BlockKind::Tool,
                                clone_opt_string(&tc.id),
                                clone_opt_string(&tc.name),
                            );
                            ctx.tool_indices.insert(tc.index, idx);
                            idx
                        },
                    };
                    let ghost ea = events.deep_view();
                    if let Some(args) = &tc.arguments {
                        if args.unicode_len() > 0 {
                            events.push(
                                StreamEvent::ContentBlockDelta {
                                    index: idx,
                                    delta: SseDelta::InputJsonDelta { partial_json: args.clone() },
                                },
                            );
                            assert(events.deep_view() =~= ea.push(
                                EventView::InputJsonDelta { index: idx, partial_json: args@ },
                            ));
                        }
                    }
                    let ghost step = tool_call_step(cb, tc.deep_view());
                    assert(ctx.view_ctx() == step.0);
                    assert(events.deep_view() == eb + step.1);
                    assert(e2 + (tool_calls_steps(c4, tcs.take(i as int)).1 + step.1) == eb + step.1);
                    i = i + 1;
                }
                assert(tcs.take(tool_calls.len() as int) == tcs);
            }
        }
    }
    proof {
        if !c0.started {
            lemma_message_start_names_the_chunk(c0, rv);
            assert(events.deep_view()[0] == events@[0].deep_view());
        }
    }
    events
}

/// The events that end a started stream.
pub fn closing_events(ctx: &mut StreamCtx) -> (r: Vec<StreamEvent>)
    ensures
        ({
            let (c, ev) = closing_events_of(old(ctx).view_ctx());
            final(ctx).view_ctx() == c && r.deep_view() == ev
        }),
        forall|i: int| 0 <= i < r.len() ==> event_constants_hold(#[trigger] r@[i]),
{
    let mut events: Vec<StreamEvent> = Vec::new();
    if let Some((idx, _)) = ctx.current_block {
        events.push(StreamEvent::ContentBlockStop { index: idx });
    }
    ctx.current_block = None;
    let ghost stop = events.deep_view();
    let stop_reason = match &ctx.stop_reason {
        Some(r) => r.clone(),
        None => String::from_str("end_turn"),
    };
    events.push(
        StreamEvent::MessageDelta {
            delta: SseMessageDelta { stop_reason: Some(stop_reason), stop_sequence: None },
            usage: Usage { input_tokens: ctx.input_tokens, output_tokens: ctx.output_tokens },
        },
    );
    events.push(StreamEvent::MessageStop);
    assert(events.deep_view() =~= closing_events_of(old(ctx).view_ctx()).1);
    events
}

/// The events that answer a failure of the upstream stream: a started
/// stream is closed properly; otherwise a single `error` event of type
/// `api_error` carries the message.
pub fn stream_error_events(ctx: &mut StreamCtx, message: &str) -> (r: Vec<StreamEvent>)
    ensures
        old(ctx).view_ctx().started ==> ({
            let (c, ev) = closing_events_of(old(ctx).view_ctx());
            final(ctx).view_ctx() == c && r.deep_view() == ev
        }),
        !old(ctx).view_ctx().started ==> final(ctx).view_ctx() == old(ctx).view_ctx()
            && r.deep_view() == seq![
            EventView::Error { error_type: "api_error"@, message: message@ },
        ],
        forall|i: int| 0 <= i < r.len() ==> event_constants_hold(#[trigger] r@[i]),
{
    if ctx.started {
        closing_events(ctx)
    } else {
        let mut events: Vec<StreamEvent> = Vec::new();
        events.push(
            StreamEvent::Error {
                error: SseError {
                    error_type: String::from_str("api_error"),
                    message: String::from_str(message),
                },
            },
        );
        assert(events.deep_view() =~= seq![
            EventView::Error { error_type: "api_error"@, message: message@ },
        ]);
        events
    }
}

/// The events that follow the end of the upstream stream: a started
/// stream is closed properly; one that never started yields nothing.
pub fn stream_end_events(ctx: &mut StreamCtx) -> (r: Vec<StreamEvent>)
    ensures
        old(ctx).view_ctx().started ==> ({
            let (c, ev) = closing_events_of(old(ctx).view_ctx());
            final(ctx).view_ctx() == c && r.deep_view() == ev
        }),
        !old(ctx).view_ctx().started ==> final(ctx).view_ctx() == old(ctx).view_ctx() && r.len()
            == 0,
        forall|i: int| 0 <= i < r.len() ==> event_constants_hold(#[trigger] r@[i]),
{
    if ctx.started {
        closing_events(ctx)
    } else {
        Vec::new()
    }
}

/// Whether a chunk can be translated without the block counter
/// overflowing: it opens at most one text block and one block per
/// tool-call fragment.
pub fn has_room_for(ctx: &StreamCtx, resp: &CompletionResponse) -> (r: bool)
    ensures
        r == room_for_blocks(ctx.view_ctx(), chunk_tool_calls(resp.deep_view()).len() + 1),
{
    let mut n: usize = 0;
    if resp.choices.len() > 0 {
        if let Some(delta) = &resp.choices[0].delta {
            if let Some(tcs) = &delta.tool_calls {
                n = tcs.len();
            }
        }
    }
    assert(n == chunk_tool_calls(resp.deep_view()).len());
    n < usize::MAX && ctx.next_index <= usize::MAX - (n + 1)
}

// ---------------------------------------------------------------------
// The shape of the event stream
// ---------------------------------------------------------------------

/// Content-block bookkeeping of an event stream: the open block (if any)
/// and the index the next block must have; `None` once the stream broke
/// the rules.
pub type BlockState = Option<(Option<usize>, nat)>;

/// One event checked against the block rules: a block starts only when
/// none is open and with the next index; only the open block is stopped;
/// text goes to the open block; input fragments go to a block already
/// started, and under the strict rules to the open block.
pub open spec fn block_step_in(strict: bool, st: BlockState, e: EventView) -> BlockState {
    match st {
        None => None,
        Some((open, next)) => match e {
            EventView::TextBlockStart { index } => if open is None && index == next {
                Some((Some(index), next + 1))
            } else {
                None
            },
            EventView::ToolBlockStart { index, .. } => if open is None && index == next {
                Some((Some(index), next + 1))
            } else {
                None
            },
            EventView::BlockStop { index } => if open == Some(index) {
                Some((None, next))
            } else {
                None
            },
            EventView::TextDelta { index, .. } => if open == Some(index) {
                st
            } else {
                None
            },
            EventView::InputJsonDelta { index, .. } => if (if strict {
                open == Some(index)
            } else {
                index < next
            }) {
                st
            } else {
                None
            },
            _ => st,
        },
    }
}

/// One event checked against the block rules.
pub open spec fn block_step(st: BlockState, e: EventView) -> BlockState {
    block_step_in(false, st, e)
}

/// The events checked in order against the block rules, strict or not.
pub open spec fn block_scan_in(strict: bool, events: Seq<EventView>, st: BlockState) -> BlockState
    decreases events.len(),
{
    if events.len() == 0 {
        st
    } else {
        block_step_in(strict, block_scan_in(strict, events.drop_last(), st), events.last())
    }
}

/// The events checked in order against the block rules.
pub open spec fn block_scan(events: Seq<EventView>, st: BlockState) -> BlockState {
    block_scan_in(false, events, st)
}

/// The events checked in order against the strict block rules, under
/// which every input fragment goes to the block that is open.
pub open spec fn strict_block_scan(events: Seq<EventView>, st: BlockState) -> BlockState {
    block_scan_in(true, events, st)
}

/// The block bookkeeping that a translation state stands for.
pub open spec fn ctx_blocks(c: CtxView) -> BlockState {
    Some(
        (
            match c.current_block {
                Some((i, _)) => Some(i),
                None => None,
            },
            c.next_index as nat,
        ),
    )
}

/// A tool-call fragment comes in order when, if it carries input for a
/// call already seen, that call's block is the one open: no other block
/// was started since the call's block.
pub open spec fn fragment_in_order(c: CtxView, tc: ToolCallDeltaView) -> bool {
    (c.tool_indices.contains_key(tc.index) && carries_input(tc)) ==> block_is_open(
        c,
        c.tool_indices[tc.index],
    )
}

/// The fragment carries a piece of input.
pub open spec fn carries_input(tc: ToolCallDeltaView) -> bool {
    tc.arguments matches Some(a) && a.len() > 0
}

/// The block with index `i` is the one open.
pub open spec fn block_is_open(c: CtxView, i: usize) -> bool {
    c.current_block matches Some((j, _)) && j == i
}

/// Every fragment comes in order, each from the state the earlier ones
/// left.
pub open spec fn fragments_in_order(c: CtxView, tcs: Seq<ToolCallDeltaView>) -> bool
    decreases tcs.len(),
{
    tcs.len() == 0 || (fragments_in_order(c, tcs.drop_last()) && fragment_in_order(
        tool_calls_steps(c, tcs.drop_last()).0,
        tcs.last(),
    ))
}

/// The translation state after a chunk's start, usage, stop reason and
/// text, where its tool-call fragments are taken up.
pub open spec fn text_stage(c: CtxView, r: CompletionResponseView) -> CtxView {
    let c1 = if !c.started {
        CtxView { started: true, ..c }
    } else {
        c
    };
    let c2 = match r.usage {
        Some(u) => CtxView { input_tokens: u.prompt_tokens, output_tokens: u.completion_tokens, ..c1 },
        None => c1,
    };
    if r.choices.len() == 0 {
        c2
    } else {
        let choice = r.choices[0];
        let c3 = match choice.finish_reason {
            Some(reason) => CtxView { stop_reason: Some(stop_reason_for(Some(reason))), ..c2 },
            None => c2,
        };
        match choice.delta {
            None => c3,
            Some(d) => match d.content {
                Some(t) => if t.len() > 0 {
                    ensured_block(c3, BlockKind::Text, None, None).0
                } else {
                    c3
                },
                None => c3,
            },
        }
    }
}

/// The chunk's tool-call fragments come in order.
pub open spec fn chunk_in_order(c: CtxView, r: CompletionResponseView) -> bool {
    fragments_in_order(text_stage(c, r), chunk_tool_calls(r))
}

/// Every chunk's fragments come in order, from the state the earlier
/// chunks left.
pub open spec fn chunks_in_order(c: CtxView, rs: Seq<CompletionResponseView>) -> bool
    decreases rs.len(),
{
    rs.len() == 0 || (chunks_in_order(c, rs.drop_last()) && chunk_in_order(
        chunks_events(c, rs.drop_last()).0,
        rs.last(),
    ))
}

/// A consistent translation state: the open block is the last one
/// started, and every remembered tool call points at a started block.
pub open spec fn ctx_ok(c: CtxView) -> bool {
    &&& c.current_block matches Some((i, _)) ==> i + 1 == c.next_index
    &&& forall|k: usize| #[trigger] c.tool_indices.contains_key(k) ==> c.tool_indices[k] < c.next_index
}

/// Checking `a + b` is checking `a`, then `b` from where `a` left off.
pub proof fn lemma_block_scan_append(strict: bool, a: Seq<EventView>, b: Seq<EventView>, st: BlockState)
    ensures
        block_scan_in(strict, a + b, st) == block_scan_in(strict, b, block_scan_in(strict, a, st)),
    decreases b.len(),
{
    if b.len() == 0 {
        assert(a + b == a);
    } else {
        lemma_block_scan_append(strict, a, b.drop_last(), st);
        assert((a + b).drop_last() == a + b.drop_last());
    }
}

proof fn lemma_block_scan_single(strict: bool, e: EventView, st: BlockState)
    ensures
        block_scan_in(strict, seq![e], st) == block_step_in(strict, st, e),
{
    assert(seq![e].drop_last() == Seq::<EventView>::empty());
    assert(seq![e].last() == e);
    assert(block_scan_in(strict, Seq::<EventView>::empty(), st) == st);
}

proof fn lemma_ensured_block_ok(strict: bool, c: CtxView, kind: BlockKind, id: Option<Seq<char>>, name: Option<Seq<char>>)
    requires
        ctx_ok(c),
        room_for_blocks(c, 1),
    ensures
        ({
            let (c2, ev, idx) = ensured_block(c, kind, id, name);
            &&& ctx_ok(c2)
            &&& block_scan_in(strict, ev, ctx_blocks(c)) == ctx_blocks(c2)
            &&& c2.current_block matches Some((i, _)) && i == idx
            &&& c2.next_index <= c.next_index + 1
            &&& c2.tool_indices == c.tool_indices
            &&& c2.started == c.started
        }),
{
    let (c2, ev, idx) = ensured_block(c, kind, id, name);
    if !continues_text_block(c, kind) {
        let start = block_start_view(c.next_index, kind, id, name);
        match c.current_block {
            Some((i, _)) => {
                let stop = seq![EventView::BlockStop { index: i }];
                assert(ev == stop.push(start));
                assert(ev.drop_last() == stop);
                assert(ev.last() == start);
                lemma_block_scan_single(strict, EventView::BlockStop { index: i }, ctx_blocks(c));
                assert(block_scan_in(strict, stop, ctx_blocks(c)) == Some((None::<usize>, c.next_index as nat)));
            },
            None => {
                assert(ev.drop_last() == Seq::<EventView>::empty());
                assert(ev.last() == start);
                assert(block_scan_in(strict, Seq::<EventView>::empty(), ctx_blocks(c)) == ctx_blocks(c));
            },
        }
        assert(block_scan_in(strict, ev, ctx_blocks(c)) == ctx_blocks(c2));
    } else {
        assert(block_scan_in(strict, ev, ctx_blocks(c)) == ctx_blocks(c2));
    }
}

proof fn lemma_tool_call_step_ok(strict: bool, c: CtxView, tc: ToolCallDeltaView)
    requires
        ctx_ok(c),
        strict ==> fragment_in_order(c, tc),
        room_for_blocks(c, 1),
    ensures
        ({
            let (c2, ev) = tool_call_step(c, tc);
            &&& ctx_ok(c2)
            &&& block_scan_in(strict, ev, ctx_blocks(c)) == ctx_blocks(c2)
            &&& c2.next_index <= c.next_index + 1
            &&& c2.started == c.started
        }),
{
    let (c2, ev) = tool_call_step(c, tc);
    let (c1, e1, idx) = if c.tool_indices.contains_key(tc.index) {
        (c, Seq::<EventView>::empty(), c.tool_indices[tc.index])
    } else {
        let (cc, evv, i) = ensured_block(c, BlockKind::Tool, tc.id, tc.name);
        lemma_ensured_block_ok(strict, c, BlockKind::Tool, tc.id, tc.name);
        let c1 = CtxView { tool_indices: cc.tool_indices.insert(tc.index, i), ..cc };
        assert forall|k: usize| #[trigger] c1.tool_indices.contains_key(k) implies c1.tool_indices[k]
            < c1.next_index by {
            if k != tc.index {
                assert(cc.tool_indices.contains_key(k));
            }
        }
        (c1, evv, i)
    };
    assert(ctx_ok(c1));
    assert(block_scan_in(strict, e1, ctx_blocks(c)) == ctx_blocks(c1));
    assert(idx < c1.next_index);
    assert(strict && carries_input(tc) ==> block_is_open(c1, idx));
    match tc.arguments {
        Some(a) => if a.len() > 0 {
            assert(ev == e1.push(EventView::InputJsonDelta { index: idx, partial_json: a }));
            assert(ev.drop_last() == e1);
        },
        None => {},
    }
}

proof fn lemma_tool_calls_steps_ok(strict: bool, c: CtxView, tcs: Seq<ToolCallDeltaView>)
    requires
        ctx_ok(c),
        strict ==> fragments_in_order(c, tcs),
        room_for_blocks(c, tcs.len()),
    ensures
        ({
            let (c2, ev) = tool_calls_steps(c, tcs);
            &&& ctx_ok(c2)
            &&& block_scan_in(strict, ev, ctx_blocks(c)) == ctx_blocks(c2)
            &&& c2.next_index <= c.next_index + tcs.len()
            &&& c2.started == c.started
        }),
    decreases tcs.len(),
{
    if tcs.len() > 0 {
        lemma_tool_calls_steps_ok(strict, c, tcs.drop_last());
        let (c1, e1) = tool_calls_steps(c, tcs.drop_last());
        lemma_tool_call_step_ok(strict, c1, tcs.last());
        let (c2, e2) = tool_call_step(c1, tcs.last());
        lemma_block_scan_append(strict, e1, e2, ctx_blocks(c));
    }
}

/// Each chunk keeps the content blocks well formed: checked from the state
/// before it, its events start blocks only with consecutive indices and
/// when none is open, stop only the open block, and send text only to the
/// open block and input fragments only to started blocks; and they leave
/// the bookkeeping where the new state says.
pub proof fn lemma_chunk_events_keep_blocks_well_formed(c: CtxView, r: CompletionResponseView)
    requires
        ctx_ok(c),
        room_for_blocks(c, chunk_tool_calls(r).len() + 1),
    ensures
        ctx_ok(chunk_events(c, r).0),
        block_scan(chunk_events(c, r).1, ctx_blocks(c)) == ctx_blocks(chunk_events(c, r).0),
        chunk_events(c, r).0.started,
{
    lemma_chunk_events_blocks(false, c, r);
}

/// When a chunk's tool-call fragments come in order, its events also keep
/// the strict rules: every input fragment goes to the block that is open.
pub proof fn lemma_chunk_events_keep_fragments_in_order(c: CtxView, r: CompletionResponseView)
    requires
        ctx_ok(c),
        room_for_blocks(c, chunk_tool_calls(r).len() + 1),
        chunk_in_order(c, r),
    ensures
        ctx_ok(chunk_events(c, r).0),
        strict_block_scan(chunk_events(c, r).1, ctx_blocks(c)) == ctx_blocks(chunk_events(c, r).0),
{
    lemma_chunk_events_blocks(true, c, r);
}

proof fn lemma_chunk_events_blocks(strict: bool, c: CtxView, r: CompletionResponseView)
    requires
        ctx_ok(c),
        room_for_blocks(c, chunk_tool_calls(r).len() + 1),
        strict ==> chunk_in_order(c, r),
    ensures
        ctx_ok(chunk_events(c, r).0),
        block_scan_in(strict, chunk_events(c, r).1, ctx_blocks(c)) == ctx_blocks(chunk_events(c, r).0),
        chunk_events(c, r).0.started,
{
    let (c1, e1) = if !c.started {
        (CtxView { started: true, ..c }, seq![EventView::MessageStart { id: r.id, model: r.model }])
    } else {
        (c, Seq::<EventView>::empty())
    };
    if !c.started {
        lemma_block_scan_single(strict, EventView::MessageStart { id: r.id, model: r.model }, ctx_blocks(c));
    }
    assert(block_scan_in(strict, e1, ctx_blocks(c)) == ctx_blocks(c1));
    let c2 = match r.usage {
        Some(u) => CtxView { input_tokens: u.prompt_tokens, output_tokens: u.completion_tokens, ..c1 },
        None => c1,
    };
    if r.choices.len() > 0 {
        let choice = r.choices[0];
        let c3 = match choice.finish_reason {
            Some(reason) => CtxView { stop_reason: Some(stop_reason_for(Some(reason))), ..c2 },
            None => c2,
        };
        match choice.delta {
            None => {},
            Some(d) => {
                let (c4, e2) = match d.content {
                    Some(t) => if t.len() > 0 {
                        let (cc, ev, idx) = ensured_block(c3, BlockKind::Text, None, None);
                        lemma_ensured_block_ok(strict, c3, BlockKind::Text, None, None);
                        let e = ev.push(EventView::TextDelta { index: idx, text: t });
                        assert(e.drop_last() == ev);
                        lemma_block_scan_append(strict, e1, e, ctx_blocks(c));
                        assert(e1 + ev.push(EventView::TextDelta { index: idx, text: t }) == e1 + e);
                        (cc, e1 + e)
                    } else {
                        (c3, e1)
                    },
                    None => (c3, e1),
                };
                assert(ctx_ok(c4));
                assert(block_scan_in(strict, e2, ctx_blocks(c)) == ctx_blocks(c4));
                match d.tool_calls {
                    Some(tcs) => {
                        lemma_tool_calls_steps_ok(strict, c4, tcs);
                        let (c5, e3) = tool_calls_steps(c4, tcs);
                        lemma_block_scan_append(strict, e2, e3, ctx_blocks(c));
                    },
                    None => {},
                }
            },
        }
    }
}

/// Closing a stream stops the open block, so that no block is left open.
pub proof fn lemma_closing_events_close_blocks(c: CtxView)
    requires
        ctx_ok(c),
    ensures
        block_scan(closing_events_of(c).1, ctx_blocks(c)) == Some((None::<usize>, c.next_index as nat)),
        strict_block_scan(closing_events_of(c).1, ctx_blocks(c)) == Some((None::<usize>, c.next_index as nat)),
        ctx_ok(closing_events_of(c).0),
{
    lemma_closing_blocks(false, c);
    lemma_closing_blocks(true, c);
}

proof fn lemma_closing_blocks(strict: bool, c: CtxView)
    requires
        ctx_ok(c),
    ensures
        block_scan_in(strict, closing_events_of(c).1, ctx_blocks(c)) == Some((None::<usize>, c.next_index as nat)),
        ctx_ok(closing_events_of(c).0),
{
    let tail = seq![
        EventView::MessageDelta {
            stop_reason: match c.stop_reason {
                Some(r) => r,
                None => "end_turn"@,
            },
            usage: Usage { input_tokens: c.input_tokens, output_tokens: c.output_tokens },
        },
        EventView::MessageStop,
    ];
    let stop = match c.current_block {
        Some((idx, _)) => seq![EventView::BlockStop { index: idx }],
        None => Seq::<EventView>::empty(),
    };
    lemma_block_scan_append(strict, stop, tail, ctx_blocks(c));
    match c.current_block {
        Some((idx, _)) => lemma_block_scan_single(strict, EventView::BlockStop { index: idx }, ctx_blocks(c)),
        None => {},
    }
    assert(tail.drop_last() == seq![tail[0]]);
    lemma_block_scan_single(strict, tail[0], block_scan_in(strict, stop, ctx_blocks(c)));
}

/// No event of `s` is a `message_start`.
pub open spec fn no_message_start(s: Seq<EventView>) -> bool {
    forall|i: int| 0 <= i < s.len() ==> !(#[trigger] s[i] is MessageStart)
}

proof fn lemma_tool_calls_steps_no_start(c: CtxView, tcs: Seq<ToolCallDeltaView>)
    ensures
        no_message_start(tool_calls_steps(c, tcs).1),
    decreases tcs.len(),
{
    if tcs.len() > 0 {
        lemma_tool_calls_steps_no_start(c, tcs.drop_last());
        let (c1, e1) = tool_calls_steps(c, tcs.drop_last());
        let (c2, e2) = tool_call_step(c1, tcs.last());
        assert(no_message_start(e2));
        assert(no_message_start(e1 + e2)) by {
            assert forall|i: int| 0 <= i < (e1 + e2).len() implies !(#[trigger] (e1 + e2)[i] is MessageStart) by {
                if i < e1.len() {
                    assert((e1 + e2)[i] == e1[i]);
                } else {
                    assert((e1 + e2)[i] == e2[i - e1.len()]);
                }
            }
        }
    }
}

/// A chunk yields `message_start` exactly when the stream had not started,
/// and then as its first event.
pub proof fn lemma_message_start_comes_first(c: CtxView, r: CompletionResponseView)
    ensures
        !c.started ==> chunk_events(c, r).1.len() > 0 && chunk_events(c, r).1[0] is MessageStart,
        forall|i: int|
            0 <= i < chunk_events(c, r).1.len() && (c.started || i > 0) ==> !(#[trigger] chunk_events(
                c,
                r,
            ).1[i] is MessageStart),
{
    let e1 = if !c.started {
        seq![EventView::MessageStart { id: r.id, model: r.model }]
    } else {
        Seq::<EventView>::empty()
    };
    let ev = chunk_events(c, r).1;
    let rest = ev.subrange(e1.len() as int, ev.len() as int);
    assert(ev.len() >= e1.len());
    assert(ev == e1 + rest) by {
        if r.choices.len() > 0 {
            match r.choices[0].delta {
                Some(d) => {
                    let c0 = if !c.started { CtxView { started: true, ..c } } else { c };
                    let c2 = match r.usage {
                        Some(u) => CtxView { input_tokens: u.prompt_tokens, output_tokens: u.completion_tokens, ..c0 },
                        None => c0,
                    };
                    let c3 = match r.choices[0].finish_reason {
                        Some(reason) => CtxView { stop_reason: Some(stop_reason_for(Some(reason))), ..c2 },
                        None => c2,
                    };
                    let (c4, e2) = match d.content {
                        Some(t) => if t.len() > 0 {
                            let (cc, evv, idx) = ensured_block(c3, BlockKind::Text, None, None);
                            (cc, e1 + evv.push(EventView::TextDelta { index: idx, text: t }))
                        } else {
                            (c3, e1)
                        },
                        None => (c3, e1),
                    };
                    match d.tool_calls {
                        Some(tcs) => {
                            let (c5, e3) = tool_calls_steps(c4, tcs);
                            lemma_tool_calls_steps_no_start(c4, tcs);
                            assert(ev == e2 + e3);
                        },
                        None => {},
                    }
                },
                None => {},
            }
        }
        assert(ev =~= e1 + rest);
    }
    assert(no_message_start(rest)) by {
        if r.choices.len() > 0 {
            match r.choices[0].delta {
                Some(d) => {
                    let c0 = if !c.started { CtxView { started: true, ..c } } else { c };
                    let c2 = match r.usage {
                        Some(u) => CtxView { input_tokens: u.prompt_tokens, output_tokens: u.completion_tokens, ..c0 },
                        None => c0,
                    };
                    let c3 = match r.choices[0].finish_reason {
                        Some(reason) => CtxView { stop_reason: Some(stop_reason_for(Some(reason))), ..c2 },
                        None => c2,
                    };
                    let (c4, mid) = match d.content {
                        Some(t) => if t.len() > 0 {
                            let (cc, evv, idx) = ensured_block(c3, BlockKind::Text, None, None);
                            (cc, evv.push(EventView::TextDelta { index: idx, text: t }))
                        } else {
                            (c3, Seq::<EventView>::empty())
                        },
                        None => (c3, Seq::<EventView>::empty()),
                    };
                    assert(no_message_start(mid));
                    match d.tool_calls {
                        Some(tcs) => {
                            let (c5, e3) = tool_calls_steps(c4, tcs);
                            lemma_tool_calls_steps_no_start(c4, tcs);
                            assert(rest =~= mid + e3);
                            assert forall|i: int| 0 <= i < rest.len() implies !(#[trigger] rest[i] is MessageStart) by {
                                if i < mid.len() {
                                    assert(rest[i] == mid[i]);
                                } else {
                                    assert(rest[i] == e3[i - mid.len()]);
                                }
                            }
                        },
                        None => {
                            assert(rest =~= mid);
                        },
                    }
                },
                None => {
                    assert(rest.len() == 0);
                },
            }
        } else {
            assert(rest.len() == 0);
        }
    }
    assert forall|i: int|
        0 <= i < ev.len() && (c.started || i > 0) implies !(#[trigger] ev[i] is MessageStart) by {
        assert(ev[i] == rest[i - e1.len()]);
    }
}

/// The translation state before any chunk arrived.
pub open spec fn initial_ctx() -> CtxView {
    CtxView {
        started: false,
        input_tokens: 0,
        output_tokens: 0,
        current_block: None,
        next_index: 0,
        tool_indices: Map::empty(),
        stop_reason: None,
    }
}

/// Translating the chunks one after another from state `c`: the state
/// reached and all the events, in order.
pub open spec fn chunks_events(c: CtxView, rs: Seq<CompletionResponseView>) -> (CtxView, Seq<EventView>)
    decreases rs.len(),
{
    if rs.len() == 0 {
        (c, Seq::empty())
    } else {
        let (c1, e1) = chunks_events(c, rs.drop_last());
        let (c2, e2) = chunk_events(c1, rs.last());
        (c2, e1 + e2)
    }
}

/// Each chunk, when its turn comes, leaves room for the blocks it may start.
pub open spec fn chunks_fit(c: CtxView, rs: Seq<CompletionResponseView>) -> bool
    decreases rs.len(),
{
    rs.len() == 0 || (chunks_fit(c, rs.drop_last()) && room_for_blocks(
        chunks_events(c, rs.drop_last()).0,
        chunk_tool_calls(rs.last()).len() + 1,
    ))
}

/// Over any run of chunks the content blocks stay well formed: checked
/// from the state before the run, the events start blocks only with
/// consecutive indices and when none is open, stop only the open block,
/// send text only to the open block and input fragments only to started
/// blocks; once a chunk has been seen the stream has started.
pub proof fn lemma_chunks_keep_blocks_well_formed(c: CtxView, rs: Seq<CompletionResponseView>)
    requires
        ctx_ok(c),
        chunks_fit(c, rs),
    ensures
        ctx_ok(chunks_events(c, rs).0),
        block_scan(chunks_events(c, rs).1, ctx_blocks(c)) == ctx_blocks(chunks_events(c, rs).0),
        rs.len() > 0 ==> chunks_events(c, rs).0.started,
        c.started ==> chunks_events(c, rs).0.started,
{
    lemma_chunks_blocks(false, c, rs);
}

/// Over any run of chunks whose tool-call fragments come in order (a
/// call's input arrives before any later block is started), every input
/// fragment also goes to the block that is open.
pub proof fn lemma_chunks_keep_fragments_in_order(c: CtxView, rs: Seq<CompletionResponseView>)
    requires
        ctx_ok(c),
        chunks_fit(c, rs),
        chunks_in_order(c, rs),
    ensures
        ctx_ok(chunks_events(c, rs).0),
        strict_block_scan(chunks_events(c, rs).1, ctx_blocks(c)) == ctx_blocks(chunks_events(c, rs).0),
{
    lemma_chunks_blocks(true, c, rs);
}

proof fn lemma_chunks_blocks(strict: bool, c: CtxView, rs: Seq<CompletionResponseView>)
    requires
        ctx_ok(c),
        chunks_fit(c, rs),
        strict ==> chunks_in_order(c, rs),
    ensures
        ctx_ok(chunks_events(c, rs).0),
        block_scan_in(strict, chunks_events(c, rs).1, ctx_blocks(c)) == ctx_blocks(chunks_events(c, rs).0),
        rs.len() > 0 ==> chunks_events(c, rs).0.started,
        c.started ==> chunks_events(c, rs).0.started,
    decreases rs.len(),
{
    if rs.len() > 0 {
        let (c1, e1) = chunks_events(c, rs.drop_last());
        lemma_chunks_blocks(strict, c, rs.drop_last());
        lemma_chunk_events_blocks(strict, c1, rs.last());
        lemma_block_scan_append(strict, e1, chunk_events(c1, rs.last()).1, ctx_blocks(c));
    }
}

/// Tool-call fragments leave the started flag as it is.
proof fn lemma_tool_calls_keep_started(c: CtxView, tcs: Seq<ToolCallDeltaView>)
    ensures
        tool_calls_steps(c, tcs).0.started == c.started,
        tool_calls_steps(c, tcs).0.input_tokens == c.input_tokens,
        tool_calls_steps(c, tcs).0.output_tokens == c.output_tokens,
    decreases tcs.len(),
{
    if tcs.len() > 0 {
        lemma_tool_calls_keep_started(c, tcs.drop_last());
    }
}

/// After a chunk the stream has started.
proof fn lemma_chunk_starts(c: CtxView, r: CompletionResponseView)
    ensures
        chunk_events(c, r).0.started,
{
    if r.choices.len() > 0 {
        let choice = r.choices[0];
        if let Some(d) = choice.delta {
            if let Some(tcs) = d.tool_calls {
                let c1 = if !c.started { CtxView { started: true, ..c } } else { c };
                let c2 = match r.usage {
                    Some(u) => CtxView { input_tokens: u.prompt_tokens, output_tokens: u.completion_tokens, ..c1 },
                    None => c1,
                };
                let c3 = match choice.finish_reason {
                    Some(reason) => CtxView { stop_reason: Some(stop_reason_for(Some(reason))), ..c2 },
                    None => c2,
                };
                let c4 = match d.content {
                    Some(t) => if t.len() > 0 { ensured_block(c3, BlockKind::Text, None, None).0 } else { c3 },
                    None => c3,
                };
                lemma_tool_calls_keep_started(c4, tcs);
            }
        }
    }
}

/// Over any run of chunks from a stream that had not started,
/// `message_start` comes exactly once, as the first event.
pub proof fn lemma_message_start_once(c: CtxView, rs: Seq<CompletionResponseView>)
    ensures
        !c.started && rs.len() > 0 ==> chunks_events(c, rs).1.len() > 0
            && chunks_events(c, rs).1[0] is MessageStart,
        forall|i: int|
            0 <= i < chunks_events(c, rs).1.len() && (c.started || i > 0) ==> !(
            #[trigger] chunks_events(c, rs).1[i] is MessageStart),
        rs.len() > 0 ==> chunks_events(c, rs).0.started,
        c.started ==> chunks_events(c, rs).0.started,
    decreases rs.len(),
{
    if rs.len() > 0 {
        let (c1, e1) = chunks_events(c, rs.drop_last());
        lemma_message_start_once(c, rs.drop_last());
        lemma_message_start_comes_first(c1, rs.last());
        lemma_chunk_starts(c1, rs.last());
        let e2 = chunk_events(c1, rs.last()).1;
        let all = e1 + e2;
        assert forall|i: int| 0 <= i < all.len() && (c.started || i > 0) implies !(
        #[trigger] all[i] is MessageStart) by {
            if i >= e1.len() {
                assert(all[i] == e2[i - e1.len()]);
                if e1.len() == 0 {
                    assert(rs.drop_last().len() == 0 || c1.started);
                }
            } else {
                assert(all[i] == e1[i]);
            }
        }
        if !c.started && e1.len() > 0 {
            assert(all[0] == e1[0]);
        }
    }
}

/// A whole stream, from the first chunk to its closing events, keeps the
/// content blocks well formed and leaves none open; when its tool-call
/// fragments come in order, it keeps the strict rules too.
pub proof fn lemma_stream_events_well_formed(rs: Seq<CompletionResponseView>)
    requires
        chunks_fit(initial_ctx(), rs),
    ensures
        block_scan(
            chunks_events(initial_ctx(), rs).1 + closing_events_of(chunks_events(initial_ctx(), rs).0).1,
            ctx_blocks(initial_ctx()),
        ) == Some((None::<usize>, chunks_events(initial_ctx(), rs).0.next_index as nat)),
        chunks_in_order(initial_ctx(), rs) ==> strict_block_scan(
            chunks_events(initial_ctx(), rs).1 + closing_events_of(chunks_events(initial_ctx(), rs).0).1,
            ctx_blocks(initial_ctx()),
        ) == Some((None::<usize>, chunks_events(initial_ctx(), rs).0.next_index as nat)),
{
    lemma_stream_blocks(false, rs);
    if chunks_in_order(initial_ctx(), rs) {
        lemma_stream_blocks(true, rs);
    }
}

proof fn lemma_stream_blocks(strict: bool, rs: Seq<CompletionResponseView>)
    requires
        chunks_fit(initial_ctx(), rs),
        strict ==> chunks_in_order(initial_ctx(), rs),
    ensures
        block_scan_in(
            strict,
            chunks_events(initial_ctx(), rs).1 + closing_events_of(chunks_events(initial_ctx(), rs).0).1,
            ctx_blocks(initial_ctx()),
        ) == Some((None::<usize>, chunks_events(initial_ctx(), rs).0.next_index as nat)),
{
    let c = initial_ctx();
    lemma_chunks_blocks(strict, c, rs);
    let (c1, e1) = chunks_events(c, rs);
    lemma_closing_blocks(strict, c1);
    lemma_block_scan_append(strict, e1, closing_events_of(c1).1, ctx_blocks(c));
}

} // verus!
