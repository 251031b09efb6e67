//! Conversion between the provider-neutral model and OpenRouter's
//! OpenAI-compatible `/chat/completions` wire format, and the framing of
//! its server-sent-event stream.
//!
//! OpenRouter's shape differs from the Anthropic one: assistant `content`
//! is a plain string (or absent when the reply is only tool calls), tool
//! calls live in a separate `tool_calls` array, and tool *results* are
//! their own `tool`-role messages rather than content blocks embedded in a
//! user message.
use vstd::prelude::*;
use vstd::string::*;
use crate::text::{str_eq, clone_opt_string, string_or_empty, text_or_empty, joined, join_strings};
use crate::provider_types::{
    ContentBlock, ContentBlockView, ContentSourceView, Message, MessageView, CompletionRequest,
    CompletionRequestView, ToolChoice, ToolChoiceView, Tool, ToolView, Usage, Choice, ChoiceView,
    CompletionResponse, CompletionResponseView, Delta, DeltaView, ToolCallDelta, ToolCallDeltaView,
};
use crate::json_repair::{JsonRepair, JsonRepairConfig, parsed_with_repair};

verus! {

// ---------------------------------------------------------------------
// Request types
// ---------------------------------------------------------------------

/// An image given by URL (here always a `data:` URL).
#[derive(Debug, Clone, PartialEq)]
pub struct ImageSource {
    pub url: String,
}

/// One part of a multi-part message content.
#[derive(Debug, Clone, PartialEq)]
pub enum OpenRouterContentPart {
    Text { text: String },
    ImageUrl { image_url: ImageSource },
}

/// Abstract value of an [`OpenRouterContentPart`].
pub enum ContentPartView {
    Text(Seq<char>),
    ImageUrl(Seq<char>),
}

impl DeepView for OpenRouterContentPart {
    type V = ContentPartView;

    open spec fn deep_view(&self) -> ContentPartView {
        match self {
            OpenRouterContentPart::Text { text } => ContentPartView::Text(text@),
            OpenRouterContentPart::ImageUrl { image_url } => ContentPartView::ImageUrl(image_url.url@),
        }
    }
}

/// A message's content: a bare string or a list of parts.
#[derive(Debug, Clone, PartialEq)]
pub enum OpenRouterContent {
    Text(String),
    Parts(Vec<OpenRouterContentPart>),
}

/// Abstract value of an [`OpenRouterContent`].
pub enum ContentView {
    Text(Seq<char>),
    Parts(Seq<ContentPartView>),
}

impl DeepView for OpenRouterContent {
    type V = ContentView;

    open spec fn deep_view(&self) -> ContentView {
        match self {
            OpenRouterContent::Text(t) => ContentView::Text(t@),
            OpenRouterContent::Parts(p) => ContentView::Parts(p.deep_view()),
        }
    }
}

/// The function a requested tool call invokes.
#[derive(Debug, Clone, PartialEq)]
pub struct OpenRouterRequestFunctionCall {
    pub name: String,
    /// The arguments, as JSON text.
    pub arguments: String,
}

/// A tool call made by an assistant message of the conversation.
#[derive(Debug, Clone, PartialEq)]
pub struct OpenRouterRequestToolCall {
    pub id: String,
    /// Always "function".
    pub call_type: String,
    pub function: OpenRouterRequestFunctionCall,
}

/// Abstract value of an [`OpenRouterRequestToolCall`].
pub struct ToolCallView {
    pub id: Seq<char>,
    pub call_type: Seq<char>,
    pub name: Seq<char>,
    pub arguments: Seq<char>,
}

impl DeepView for OpenRouterRequestToolCall {
    type V = ToolCallView;

    open spec fn deep_view(&self) -> ToolCallView {
        ToolCallView {
            id: self.id@,
            call_type: self.call_type@,
            name: self.function.name@,
            arguments: self.function.arguments@,
        }
    }
}

/// OpenRouter message structure. Different roles use different subsets of
/// these fields: `tool` messages carry `tool_call_id`; assistant messages
/// that invoked tools carry `tool_calls` (and may omit `content` entirely).
#[derive(Debug, Clone, PartialEq)]
pub struct OpenRouterMessage {
    pub role: String,
    pub content: Option<OpenRouterContent>,
    pub tool_calls: Option<Vec<OpenRouterRequestToolCall>>,
    pub tool_call_id: Option<String>,
}

/// Abstract value of an [`OpenRouterMessage`].
pub struct WireMessageView {
    pub role: Seq<char>,
    pub content: Option<ContentView>,
    pub tool_calls: Option<Seq<ToolCallView>>,
    pub tool_call_id: Option<Seq<char>>,
}

impl DeepView for OpenRouterMessage {
    type V = WireMessageView;

    open spec fn deep_view(&self) -> WireMessageView {
        WireMessageView {
            role: self.role@,
            content: self.content.deep_view(),
            tool_calls: self.tool_calls.deep_view(),
            tool_call_id: self.tool_call_id.deep_view(),
        }
    }
}

// ---------------------------------------------------------------------
// Message conversion
// ---------------------------------------------------------------------

/// The `data:` URL that carries an inline image.
pub open spec fn image_data_url(src: ContentSourceView) -> Seq<char> {
    "data:"@ + src.media_type + ";base64,"@ + src.data
}

/// The text sent back for a tool result: its text, marked when the tool failed.
pub open spec fn tool_result_text(b: ContentBlockView) -> Seq<char> {
    if b.is_error == Some(true) {
        "Error: "@ + text_or_empty(b.text)
    } else {
        text_or_empty(b.text)
    }
}

/// What the blocks of a message contribute, in order: content parts, tool
/// calls, tool-result messages, and whether an image block occurs.
pub struct BlockScan {
    pub parts: Seq<ContentPartView>,
    pub tool_calls: Seq<ToolCallView>,
    pub tool_results: Seq<WireMessageView>,
    pub has_image: bool,
}

/// The contribution of the blocks `blocks`, block by block.
pub open spec fn scan_blocks(blocks: Seq<ContentBlockView>) -> BlockScan
    decreases blocks.len(),
{
    if blocks.len() == 0 {
        BlockScan {
            parts: Seq::empty(),
            tool_calls: Seq::empty(),
            tool_results: Seq::empty(),
            has_image: false,
        }
    } else {
        let acc = scan_blocks(blocks.drop_last());
        let b = blocks.last();
        if b.content_type == "image"@ {
            BlockScan {
                parts: match b.source {
                    Some(src) => acc.parts.push(ContentPartView::ImageUrl(image_data_url(src))),
                    None => acc.parts,
                },
                has_image: true,
                ..acc
            }
        } else if b.content_type == "tool_use"@ {
            BlockScan {
                tool_calls: acc.tool_calls.push(
                    ToolCallView {
                        id: text_or_empty(b.id),
                        call_type: "function"@,
                        name: text_or_empty(b.name),
                        arguments: match b.input {
                            Some(t) => t,
                            None => "{}"@,
                        },
                    },
                ),
                ..acc
            }
        } else if b.content_type == "tool_result"@ {
            BlockScan {
                tool_results: acc.tool_results.push(
                    WireMessageView {
                        role: "tool"@,
                        content: Some(ContentView::Text(tool_result_text(b))),
                        tool_calls: None,
                        tool_call_id: b.tool_use_id,
                    },
                ),
                ..acc
            }
        } else {
            BlockScan {
                parts: match b.text {
                    Some(t) => acc.parts.push(ContentPartView::Text(t)),
                    None => acc.parts,
                },
                ..acc
            }
        }
    }
}

/// The texts of the text parts, in order.
pub open spec fn part_texts(parts: Seq<ContentPartView>) -> Seq<Seq<char>>
    decreases parts.len(),
{
    if parts.len() == 0 {
        Seq::empty()
    } else {
        match parts.last() {
            ContentPartView::Text(t) => part_texts(parts.drop_last()).push(t),
            ContentPartView::ImageUrl(_) => part_texts(parts.drop_last()),
        }
    }
}

/// The OpenRouter messages that stand for one message: a message with its
/// text, images and tool calls (when it has any), followed by one
/// `tool`-role message per tool result. Text-only content is sent as one
/// string, its parts joined by newlines.
pub open spec fn converted_message(msg: MessageView) -> Seq<WireMessageView> {
    let scan = scan_blocks(msg.content);
    let main = if scan.parts.len() > 0 || scan.tool_calls.len() > 0 {
        seq![
            WireMessageView {
                role: msg.role,
                content: if scan.parts.len() == 0 {
                    None
                } else if scan.has_image {
                    Some(ContentView::Parts(scan.parts))
                } else {
                    Some(ContentView::Text(joined(part_texts(scan.parts), "\n"@)))
                },
                tool_calls: if scan.tool_calls.len() == 0 {
                    None
                } else {
                    Some(scan.tool_calls)
                },
                tool_call_id: None,
            },
        ]
    } else {
        Seq::empty()
    };
    main + scan.tool_results
}

/// The tool-result blocks among `blocks`, in order.
pub open spec fn tool_result_blocks(blocks: Seq<ContentBlockView>) -> Seq<ContentBlockView>
    decreases blocks.len(),
{
    if blocks.len() == 0 {
        Seq::empty()
    } else if blocks.last().content_type == "tool_result"@ {
        tool_result_blocks(blocks.drop_last()).push(blocks.last())
    } else {
        tool_result_blocks(blocks.drop_last())
    }
}

/// Whether `m` is the `tool` message that answers the tool-result block `b`:
/// it answers `b`'s call id, and its text is `b`'s text, with `Error: ` in
/// front when `b` reports that the tool failed.
pub open spec fn answers_tool_result(m: WireMessageView, b: ContentBlockView) -> bool {
    &&& m.role == "tool"@
    &&& m.tool_call_id == b.tool_use_id
    &&& m.tool_calls is None
    &&& m.content is Some
    &&& m.content.unwrap() is Text
    &&& (b.is_error == Some(true) ==> m.content.unwrap()->Text_0 == "Error: "@ + text_or_empty(b.text))
    &&& (b.is_error != Some(true) ==> m.content.unwrap()->Text_0 == text_or_empty(b.text))
}

/// Whether `out` ends with one answering `tool` message per tool-result
/// block of `blocks`, in the order of the blocks.
pub open spec fn ends_with_tool_answers(out: Seq<WireMessageView>, blocks: Seq<ContentBlockView>) -> bool {
    let results = tool_result_blocks(blocks);
    &&& results.len() <= out.len()
    &&& forall|k: int|
        0 <= k < results.len() ==> answers_tool_result(
            out[out.len() - results.len() + k],
            #[trigger] results[k],
        )
}

proof fn lemma_scan_answers_tool_results(blocks: Seq<ContentBlockView>)
    ensures
        scan_blocks(blocks).tool_results.len() == tool_result_blocks(blocks).len(),
        forall|k: int|
            0 <= k < tool_result_blocks(blocks).len() ==> answers_tool_result(
                scan_blocks(blocks).tool_results[k],
                #[trigger] tool_result_blocks(blocks)[k],
            ),
    decreases blocks.len(),
{
    if blocks.len() > 0 {
        lemma_scan_answers_tool_results(blocks.drop_last());
        reveal_strlit("image");
        reveal_strlit("tool_use");
        reveal_strlit("tool_result");
        let b = blocks.last();
        let prev = tool_result_blocks(blocks.drop_last());
        let acc = scan_blocks(blocks.drop_last());
        if b.content_type == "tool_result"@ {
            assert(b.content_type != "image"@ && b.content_type != "tool_use"@) by {
                assert(b.content_type.len() == 11);
            }
            assert(scan_blocks(blocks).tool_results == acc.tool_results.push(
                WireMessageView {
                    role: "tool"@,
                    content: Some(ContentView::Text(tool_result_text(b))),
                    tool_calls: None,
                    tool_call_id: b.tool_use_id,
                },
            ));
            assert(tool_result_blocks(blocks) == prev.push(b));
            assert forall|k: int| 0 <= k < prev.len() + 1 implies answers_tool_result(
                scan_blocks(blocks).tool_results[k],
                #[trigger] tool_result_blocks(blocks)[k],
            ) by {
                if k < prev.len() {
                    assert(tool_result_blocks(blocks)[k] == prev[k]);
                }
            }
        } else {
            assert(tool_result_blocks(blocks) == prev);
            assert(scan_blocks(blocks).tool_results == acc.tool_results);
        }
    }
}

/// A message's tool-result blocks become, in their order, the last messages
/// of its conversion: each a `tool` message that answers the block's call
/// id with the block's text, preceded by `Error: ` when the tool failed.
pub proof fn lemma_tool_results_answer_their_blocks(msg: MessageView)
    ensures
        ends_with_tool_answers(converted_message(msg), msg.content),
{
    lemma_scan_answers_tool_results(msg.content);
    let scan = scan_blocks(msg.content);
    let out = converted_message(msg);
    let n = tool_result_blocks(msg.content).len();
    let main_len = out.len() - scan.tool_results.len();
    assert forall|k: int| 0 <= k < n implies answers_tool_result(
        out[out.len() - n + k],
        #[trigger] tool_result_blocks(msg.content)[k],
    ) by {
        assert(out[main_len + k] == scan.tool_results[k]);
    }
}

/// The tool-use blocks among `blocks`, in order.
pub open spec fn tool_use_blocks_of(blocks: Seq<ContentBlockView>) -> Seq<ContentBlockView>
    decreases blocks.len(),
{
    if blocks.len() == 0 {
        Seq::empty()
    } else if blocks.last().content_type == "tool_use"@ {
        tool_use_blocks_of(blocks.drop_last()).push(blocks.last())
    } else {
        tool_use_blocks_of(blocks.drop_last())
    }
}

/// Whether `call` is the function call made for the tool-use block `b`: it
/// has `b`'s id and name (empty when missing), and `b`'s input as its
/// arguments (`{}` when `b` has none).
pub open spec fn calls_tool_of(call: ToolCallView, b: ContentBlockView) -> bool {
    &&& call.call_type == "function"@
    &&& call.id == text_or_empty(b.id)
    &&& call.name == text_or_empty(b.name)
    &&& (b.input is Some ==> call.arguments == b.input.unwrap())
    &&& (b.input is None ==> call.arguments == "{}"@)
}

proof fn lemma_scan_calls_tools(blocks: Seq<ContentBlockView>)
    ensures
        scan_blocks(blocks).tool_calls.len() == tool_use_blocks_of(blocks).len(),
        forall|k: int|
            0 <= k < tool_use_blocks_of(blocks).len() ==> calls_tool_of(
                scan_blocks(blocks).tool_calls[k],
                #[trigger] tool_use_blocks_of(blocks)[k],
            ),
    decreases blocks.len(),
{
    if blocks.len() > 0 {
        lemma_scan_calls_tools(blocks.drop_last());
        reveal_strlit("image");
        reveal_strlit("tool_use");
        let b = blocks.last();
        let prev = tool_use_blocks_of(blocks.drop_last());
        let acc = scan_blocks(blocks.drop_last());
        if b.content_type == "tool_use"@ {
            assert(b.content_type != "image"@) by {
                assert(b.content_type.len() == 8);
            }
            assert(tool_use_blocks_of(blocks) == prev.push(b));
            assert forall|k: int| 0 <= k < prev.len() + 1 implies calls_tool_of(
                scan_blocks(blocks).tool_calls[k],
                #[trigger] tool_use_blocks_of(blocks)[k],
            ) by {
                if k < prev.len() {
                    assert(tool_use_blocks_of(blocks)[k] == prev[k]);
                }
            }
        } else {
            assert(tool_use_blocks_of(blocks) == prev);
            assert(scan_blocks(blocks).tool_calls == acc.tool_calls);
        }
    }
}

/// A message with tool-use blocks is sent as a first message that carries
/// one function call per tool-use block, in the order of the blocks, each
/// with the block's id, name and input.
pub proof fn lemma_tool_uses_become_calls(msg: MessageView)
    requires
        tool_use_blocks_of(msg.content).len() > 0,
    ensures
        converted_message(msg).len() > 0,
        converted_message(msg)[0].tool_calls is Some,
        converted_message(msg)[0].tool_calls.unwrap().len() == tool_use_blocks_of(msg.content).len(),
        forall|k: int|
            0 <= k < tool_use_blocks_of(msg.content).len() ==> calls_tool_of(
                converted_message(msg)[0].tool_calls.unwrap()[k],
                #[trigger] tool_use_blocks_of(msg.content)[k],
            ),
{
    lemma_scan_calls_tools(msg.content);
}

/// Convert one internal message into zero or more OpenRouter messages.
pub fn convert_message(msg: &Message) -> (r: Vec<OpenRouterMessage>)
    ensures
        r.deep_view() == converted_message(msg.deep_view()),
        ends_with_tool_answers(r.deep_view(), msg.deep_view().content),
{
    let mut parts: Vec<OpenRouterContentPart> = Vec::new();
    let mut tool_calls: Vec<OpenRouterRequestToolCall> = Vec::new();
    let mut tool_results: Vec<OpenRouterMessage> = Vec::new();
    let mut has_image = false;
    let ghost blocks = msg.content.deep_view();
    let mut i: usize = 0;
    while i < msg.content.len()
        invariant
            i <= msg.content.len(),
            blocks == msg.content.deep_view(),
            scan_blocks(blocks.take(i as int)).parts == parts.deep_view(),
            scan_blocks(blocks.take(i as int)).tool_calls == tool_calls.deep_view(),
            scan_blocks(blocks.take(i as int)).tool_results == tool_results.deep_view(),
            scan_blocks(blocks.take(i as int)).has_image == has_image,
        decreases msg.content.len() - i,
    {
        let block = &msg.content[i];
        assert(blocks.take(i + 1).drop_last() == blocks.take(i as int));
        assert(blocks.take(i + 1).last() == block.deep_view());
        if str_eq(block.content_type.as_str(), "image") {
            has_image = true;
            if let Some(source) = &block.source {
                let mut url = String::from_str("data:");
                url.append(source.media_type.as_str());
                url.append(";base64,");
                url.append(source.data.as_str());
                parts.push(OpenRouterContentPart::ImageUrl { image_url: ImageSource { url } });
            }
        } else if str_eq(block.content_type.as_str(), "tool_use") {
            let arguments = match &block.input {
                Some(v) => v.clone(),
                None => String::from_str("{}"),
            };
            tool_calls.push(
                OpenRouterRequestToolCall {
                    id: string_or_empty(&block.id),
                    call_type: String::from_str("function"),
                    function: OpenRouterRequestFunctionCall {
                        name: string_or_empty(&block.name),
                        arguments,
                    },
                },
            );
        } else if str_eq(block.content_type.as_str(), "tool_result") {
            let mut content = string_or_empty(&block.text);
            if block.is_error == Some(true) {
                let mut marked = String::from_str("Error: ");
                marked.append(content.as_str());
                content = marked;
            }
            tool_results.push(
                OpenRouterMessage {
                    role: String::from_str("tool"),
                    content: Some(OpenRouterContent::Text(content)),
                    tool_calls: None,
                    tool_call_id: clone_opt_string(&block.tool_use_id),
                },
            );
        } else {
            if let Some(text) = &block.text {
                parts.push(OpenRouterContentPart::Text { text: text.clone() });
            }
        }
        i = i + 1;
    }
    assert(blocks.take(msg.content.len() as int) == blocks);
    let mut messages: Vec<OpenRouterMessage> = Vec::new();
    if parts.len() > 0 || tool_calls.len() > 0 {
        let content = if parts.len() == 0 {
            None
        } else if has_image {
            Some(OpenRouterContent::Parts(parts))
        } else {
            Some(OpenRouterContent::Text(join_part_texts(parts, "\n")))
        };
        let calls = if tool_calls.len() == 0 {
            None
        } else {
            Some(tool_calls)
        };
        messages.push(
            OpenRouterMessage {
                role: msg.role.clone(),
                content,
                tool_calls: calls,
                tool_call_id: None,
            },
        );
    }
    let ghost main = messages.deep_view();
    messages.append(&mut tool_results);
    assert(messages.deep_view() == main + scan_blocks(blocks).tool_results);
    proof {
        lemma_tool_results_answer_their_blocks(msg.deep_view());
    }
    messages
}

/// Joins the texts of the text parts with `sep`.
fn join_part_texts(parts: Vec<OpenRouterContentPart>, sep: &str) -> (r: String)
    ensures
        r@ == joined(part_texts(parts.deep_view()), sep@),
{
    let mut texts: Vec<String> = Vec::new();
    let ghost ps = parts.deep_view();
    let mut i: usize = 0;
    while i < parts.len()
        invariant
            i <= parts.len(),
            ps == parts.deep_view(),
            texts.deep_view() == part_texts(ps.take(i as int)),
        decreases parts.len() - i,
    {
        assert(ps.take(i + 1).drop_last() == ps.take(i as int));
        match &parts[i] {
            OpenRouterContentPart::Text { text } => texts.push(text.clone()),
            OpenRouterContentPart::ImageUrl { .. } => {},
        }
        i = i + 1;
    }
    assert(ps.take(parts.len() as int) == ps);
    join_strings(&texts, sep)
}

// ---------------------------------------------------------------------
// Request conversion
// ---------------------------------------------------------------------

/// A tool's function description as OpenRouter expects it.
#[derive(Debug, Clone, PartialEq)]
pub struct OpenRouterToolFunction {
    pub name: String,
    pub description: String,
    /// The parameter schema, as JSON text.
    pub parameters: String,
}

/// A tool offered to the model.
#[derive(Debug, Clone, PartialEq)]
pub struct OpenRouterTool {
    /// Always "function".
    pub tool_type: String,
    pub function: OpenRouterToolFunction,
}

/// Abstract value of an [`OpenRouterTool`].
pub struct WireToolView {
    pub tool_type: Seq<char>,
    pub name: Seq<char>,
    pub description: Seq<char>,
    pub parameters: Seq<char>,
}

impl DeepView for OpenRouterTool {
    type V = WireToolView;

    open spec fn deep_view(&self) -> WireToolView {
        WireToolView {
            tool_type: self.tool_type@,
            name: self.function.name@,
            description: self.function.description@,
            parameters: self.function.parameters@,
        }
    }
}

/// The `tool_choice` field: a mode string ("auto", "required") or a
/// `{"type": "function", "function": {"name": ...}}` object.
#[derive(Debug, Clone, PartialEq)]
pub enum WireToolChoice {
    Mode(String),
    Function(String),
}

/// Abstract value of a [`WireToolChoice`].
pub enum WireToolChoiceView {
    Mode(Seq<char>),
    Function(Seq<char>),
}

impl DeepView for WireToolChoice {
    type V = WireToolChoiceView;

    open spec fn deep_view(&self) -> WireToolChoiceView {
        match self {
            WireToolChoice::Mode(m) => WireToolChoiceView::Mode(m@),
            WireToolChoice::Function(n) => WireToolChoiceView::Function(n@),
        }
    }
}

/// OpenRouter chat completion request
#[derive(Debug, Clone, PartialEq)]
pub struct ChatCompletionRequest {
    pub model: String,
    pub messages: Vec<OpenRouterMessage>,
    /// Sampling temperature, as the bit pattern of an `f32`.
    pub temperature_bits: Option<u32>,
    pub max_tokens: Option<u32>,
    pub stream: Option<bool>,
    pub tools: Option<Vec<OpenRouterTool>>,
    pub tool_choice: Option<WireToolChoice>,
}

/// Abstract value of a [`ChatCompletionRequest`].
pub struct ChatCompletionRequestView {
    pub model: Seq<char>,
    pub messages: Seq<WireMessageView>,
    pub temperature_bits: Option<u32>,
    pub max_tokens: Option<u32>,
    pub stream: Option<bool>,
    pub tools: Option<Seq<WireToolView>>,
    pub tool_choice: Option<WireToolChoiceView>,
}

impl DeepView for ChatCompletionRequest {
    type V = ChatCompletionRequestView;

    open spec fn deep_view(&self) -> ChatCompletionRequestView {
        ChatCompletionRequestView {
            model: self.model@,
            messages: self.messages.deep_view(),
            temperature_bits: self.temperature_bits,
            max_tokens: self.max_tokens,
            stream: self.stream,
            tools: self.tools.deep_view(),
            tool_choice: self.tool_choice.deep_view(),
        }
    }
}

/// The OpenRouter messages for a conversation, message by message.
pub open spec fn converted_messages(msgs: Seq<MessageView>) -> Seq<WireMessageView>
    decreases msgs.len(),
{
    if msgs.len() == 0 {
        Seq::empty()
    } else {
        converted_messages(msgs.drop_last()) + converted_message(msgs.last())
    }
}

/// A tool as OpenRouter describes it.
pub open spec fn converted_tool(t: ToolView) -> WireToolView {
    WireToolView {
        tool_type: "function"@,
        name: t.name,
        description: t.description,
        parameters: t.input_schema,
    }
}

/// The OpenRouter form of a tool choice: "auto", "required", or a named function.
pub open spec fn converted_tool_choice(c: ToolChoiceView) -> WireToolChoiceView {
    match c {
        ToolChoiceView::Auto => WireToolChoiceView::Mode("auto"@),
        ToolChoiceView::Any => WireToolChoiceView::Mode("required"@),
        ToolChoiceView::Tool(name) => WireToolChoiceView::Function(name),
    }
}

/// The OpenRouter request for a completion request.
pub open spec fn converted_request(r: CompletionRequestView) -> ChatCompletionRequestView {
    ChatCompletionRequestView {
        model: r.model,
        messages: converted_messages(r.messages),
        temperature_bits: r.temperature_bits,
        max_tokens: r.max_tokens,
        stream: r.stream,
        tools: match r.tools {
            Some(ts) => Some(ts.map_values(|t: ToolView| converted_tool(t))),
            None => None,
        },
        tool_choice: match r.tool_choice {
            Some(c) => Some(converted_tool_choice(c)),
            None => None,
        },
    }
}

/// Converts the messages of a conversation, in order.
pub fn convert_messages(msgs: &Vec<Message>) -> (r: Vec<OpenRouterMessage>)
    ensures
        r.deep_view() == converted_messages(msgs.deep_view()),
{
    let ghost ms = msgs.deep_view();
    let mut out: Vec<OpenRouterMessage> = Vec::new();
    let mut i: usize = 0;
    while i < msgs.len()
        invariant
            i <= msgs.len(),
            ms == msgs.deep_view(),
            out.deep_view() == converted_messages(ms.take(i as int)),
        decreases msgs.len() - i,
    {
        assert(ms.take(i + 1).drop_last() == ms.take(i as int));
        let mut converted = convert_message(&msgs[i]);
        let ghost before = out.deep_view();
        let ghost added = converted.deep_view();
        out.append(&mut converted);
        assert(out.deep_view() == before + added);
        i = i + 1;
    }
    assert(ms.take(msgs.len() as int) == ms);
    out
}

/// Describes each tool to OpenRouter as a function.
pub fn convert_tools(tools: &Vec<Tool>) -> (r: Vec<OpenRouterTool>)
    ensures
        r.deep_view() == tools.deep_view().map_values(|t: ToolView| converted_tool(t)),
{
    let mut out: Vec<OpenRouterTool> = Vec::new();
    let mut i: usize = 0;
    while i < tools.len()
        invariant
            i <= tools.len(),
            out.deep_view() == tools.deep_view().take(i as int).map_values(
                |t: ToolView| converted_tool(t),
            ),
        decreases tools.len() - i,
    {
        let tool = &tools[i];
        let ghost prefix = tools.deep_view().take(i as int);
        let ghost before = out.deep_view();
        out.push(
            OpenRouterTool {
                tool_type: String::from_str("function"),
                function: OpenRouterToolFunction {
                    name: tool.name.clone(),
                    description: tool.description.clone(),
                    parameters: tool.input_schema.clone(),
                },
            },
        );
        assert(out.deep_view() == before.push(converted_tool(tool.deep_view())));
        assert(tools.deep_view().take(i + 1) == prefix.push(tool.deep_view()));
        assert(prefix.push(tool.deep_view()).map_values(|t: ToolView| converted_tool(t))
            =~= prefix.map_values(|t: ToolView| converted_tool(t)).push(converted_tool(tool.deep_view())));
        i = i + 1;
    }
    assert(tools.deep_view().take(tools.len() as int) == tools.deep_view());
    out
}

/// The OpenRouter form of a tool choice.
pub fn convert_tool_choice(c: &ToolChoice) -> (r: WireToolChoice)
    ensures
        r.deep_view() == converted_tool_choice(c.deep_view()),
{
    match c {
        ToolChoice::Auto => WireToolChoice::Mode(String::from_str("auto")),
        ToolChoice::Any => WireToolChoice::Mode(String::from_str("required")),
        ToolChoice::Tool(name) => WireToolChoice::Function(name.clone()),
    }
}

// ---------------------------------------------------------------------
// Response types
// ---------------------------------------------------------------------

/// The function a tool call of a reply invokes.
#[derive(Debug, Clone, PartialEq)]
pub struct ResponseFunctionCall {
    pub name: String,
    /// The arguments as the model wrote them (meant to be JSON).
    pub arguments: String,
}

/// A tool call of a reply.
#[derive(Debug, Clone, PartialEq)]
pub struct ResponseToolCall {
    pub id: String,
    pub function: ResponseFunctionCall,
}

/// The message of a reply choice.
#[derive(Debug, Clone, PartialEq)]
pub struct ResponseMessage {
    /// Plain string (or absent when the reply is only tool calls) -
    /// not an array of content blocks as in the Anthropic API.
    pub content: Option<String>,
    pub tool_calls: Option<Vec<ResponseToolCall>>,
}

/// One choice of a reply.
#[derive(Debug, Clone, PartialEq)]
pub struct ResponseChoice {
    pub index: u32,
    pub message: Option<ResponseMessage>,
    pub finish_reason: Option<String>,
}

/// Token accounting of a reply.
#[derive(Debug, Clone, Copy, PartialEq, Eq, Structural)]
pub struct ResponseUsage {
    pub prompt_tokens: u32,
    pub completion_tokens: u32,
    pub total_tokens: u32,
}

/// A non-streaming chat completion reply.
#[derive(Debug, Clone, PartialEq)]
pub struct ChatCompletionResponse {
    pub id: String,
    pub model: String,
    pub choices: Vec<ResponseChoice>,
    pub usage: Option<ResponseUsage>,
}

/// The function part of a streamed tool-call fragment.
#[derive(Debug, Clone, PartialEq)]
pub struct StreamFunctionDelta {
    pub name: Option<String>,
    pub arguments: Option<String>,
}

/// A streamed tool-call fragment.
#[derive(Debug, Clone, PartialEq)]
pub struct StreamToolCallDelta {
    pub index: usize,
    pub id: Option<String>,
    pub function: Option<StreamFunctionDelta>,
}

/// The increment a streamed chunk carries.
#[derive(Debug, Clone, PartialEq)]
pub struct StreamDelta {
    pub role: Option<String>,
    pub content: Option<String>,
    pub tool_calls: Option<Vec<StreamToolCallDelta>>,
}

/// One choice of a streamed chunk.
#[derive(Debug, Clone, PartialEq)]
pub struct StreamChoice {
    pub index: u32,
    pub delta: StreamDelta,
    pub finish_reason: Option<String>,
}

/// One streamed chunk of a reply.
#[derive(Debug, Clone, PartialEq)]
pub struct StreamChunk {
    pub id: String,
    pub model: String,
    pub choices: Vec<StreamChoice>,
    pub usage: Option<ResponseUsage>,
}

/// The provider-neutral usage record.
pub open spec fn converted_usage(u: Option<ResponseUsage>) -> Option<Usage> {
    match u {
        Some(u) => Some(
            Usage {
                prompt_tokens: u.prompt_tokens,
                completion_tokens: u.completion_tokens,
                total_tokens: u.total_tokens,
            },
        ),
        None => None,
    }
}

/// Whether the usage record `ours` carries the counts of the provider's
/// record `theirs` unchanged: the prompt, completion and total token counts
/// are the provider's, and no record stays no record.
pub open spec fn carries_usage(ours: Option<Usage>, theirs: Option<ResponseUsage>) -> bool {
    match theirs {
        Some(u) => ours is Some && ours.unwrap().prompt_tokens == u.prompt_tokens
            && ours.unwrap().completion_tokens == u.completion_tokens
            && ours.unwrap().total_tokens == u.total_tokens,
        None => ours is None,
    }
}

/// A converted reply and a converted streamed chunk report the provider's
/// token counts: prompt tokens as prompt tokens, completion tokens as
/// completion tokens, and the total as the total.
pub proof fn lemma_converted_usage_keeps_counts(config: JsonRepairConfig, reply: ChatCompletionResponse, chunk: StreamChunk)
    ensures
        carries_usage(converted_response(config, reply).usage, reply.usage),
        carries_usage(converted_stream_chunk(chunk).usage, chunk.usage),
{
}

fn convert_usage(u: &Option<ResponseUsage>) -> (r: Option<Usage>)
    ensures
        carries_usage(r, *u),
        r == converted_usage(*u),
{
    match u {
        Some(u) => Some(
            Usage {
                prompt_tokens: u.prompt_tokens,
                completion_tokens: u.completion_tokens,
                total_tokens: u.total_tokens,
            },
        ),
        None => None,
    }
}

/// A text block.
pub open spec fn text_block_view(t: Seq<char>) -> ContentBlockView {
    ContentBlockView {
        content_type: "text"@,
        text: Some(t),
        source: None,
        id: None,
        name: None,
        input: None,
        tool_use_id: None,
        is_error: None,
    }
}

/// The input recorded for a tool call: its arguments as parsed with
/// repair, or an empty object when they cannot be repaired.
pub open spec fn tool_input(config: JsonRepairConfig, arguments: Seq<char>) -> Seq<char> {
    match parsed_with_repair(config, arguments) {
        Some(t) => t,
        None => "{}"@,
    }
}

/// The `tool_use` block for a tool call of a reply.
pub open spec fn tool_use_block_view(config: JsonRepairConfig, tc: ResponseToolCall) -> ContentBlockView {
    ContentBlockView {
        content_type: "tool_use"@,
        text: None,
        source: None,
        id: Some(tc.id@),
        name: Some(tc.function.name@),
        input: Some(tool_input(config, tc.function.arguments@)),
        tool_use_id: None,
        is_error: None,
    }
}

/// The blocks for the tool calls, in order.
pub open spec fn tool_use_blocks(config: JsonRepairConfig, tcs: Seq<ResponseToolCall>) -> Seq<ContentBlockView>
    decreases tcs.len(),
{
    if tcs.len() == 0 {
        Seq::empty()
    } else {
        tool_use_blocks(config, tcs.drop_last()).push(tool_use_block_view(config, tcs.last()))
    }
}

/// The assistant message for a reply message: its text (when not empty)
/// as a text block, then one `tool_use` block per tool call.
pub open spec fn converted_reply_message(config: JsonRepairConfig, m: ResponseMessage) -> MessageView {
    let text = match m.content {
        Some(t) => if t@.len() > 0 {
            seq![text_block_view(t@)]
        } else {
            Seq::empty()
        },
        None => Seq::empty(),
    };
    let calls = match m.tool_calls {
        Some(tcs) => tool_use_blocks(config, tcs@),
        None => Seq::empty(),
    };
    MessageView { role: "assistant"@, content: text + calls }
}

/// The provider-neutral choice for a reply choice.
pub open spec fn converted_reply_choice(config: JsonRepairConfig, c: ResponseChoice) -> ChoiceView {
    ChoiceView {
        index: c.index,
        message: match c.message {
            Some(m) => Some(converted_reply_message(config, m)),
            None => None,
        },
        delta: None,
        finish_reason: c.finish_reason.deep_view(),
    }
}

/// The provider-neutral response for a reply.
pub open spec fn converted_response(config: JsonRepairConfig, r: ChatCompletionResponse) -> CompletionResponseView {
    CompletionResponseView {
        id: r.id@,
        model: r.model@,
        choices: r.choices@.map_values(|c: ResponseChoice| converted_reply_choice(config, c)),
        usage: converted_usage(r.usage),
    }
}

/// The provider-neutral tool-call fragment for a streamed one.
pub open spec fn converted_tool_call_delta(tc: StreamToolCallDelta) -> ToolCallDeltaView {
    ToolCallDeltaView {
        index: tc.index,
        id: tc.id.deep_view(),
        name: match tc.function {
            Some(f) => f.name.deep_view(),
            None => None,
        },
        arguments: match tc.function {
            Some(f) => f.arguments.deep_view(),
            None => None,
        },
    }
}

/// The provider-neutral choice for a streamed choice: its delta, no message.
pub open spec fn converted_stream_choice(c: StreamChoice) -> ChoiceView {
    ChoiceView {
        index: c.index,
        message: None,
        delta: Some(
            DeltaView {
                role: c.delta.role.deep_view(),
                content: c.delta.content.deep_view(),
                tool_calls: match c.delta.tool_calls {
                    Some(tcs) => Some(
                        tcs@.map_values(|tc: StreamToolCallDelta| converted_tool_call_delta(tc)),
                    ),
                    None => None,
                },
            },
        ),
        finish_reason: c.finish_reason.deep_view(),
    }
}

/// The provider-neutral response for a streamed chunk.
pub open spec fn converted_stream_chunk(c: StreamChunk) -> CompletionResponseView {
    CompletionResponseView {
        id: c.id@,
        model: c.model@,
        choices: c.choices@.map_values(|ch: StreamChoice| converted_stream_choice(ch)),
        usage: converted_usage(c.usage),
    }
}

/// Converts a streamed chunk to the provider-neutral response shape.
pub fn convert_stream_chunk(chunk: &StreamChunk) -> (r: CompletionResponse)
    ensures
        r.deep_view() == converted_stream_chunk(*chunk),
        carries_usage(r.usage, chunk.usage),
{
    let mut choices: Vec<Choice> = Vec::new();
    let mut i: usize = 0;
    while i < chunk.choices.len()
        invariant
            i <= chunk.choices.len(),
            choices.deep_view() == chunk.choices@.take(i as int).map_values(
                |ch: StreamChoice| converted_stream_choice(ch),
            ),
        decreases chunk.choices.len() - i,
    {
        let choice = &chunk.choices[i];
        let tool_calls = match &choice.delta.tool_calls {
            Some(tcs) => Some(convert_tool_call_deltas(tcs)),
            None => None,
        };
        let ghost before = choices.deep_view();
        let ghost prefix = chunk.choices@.take(i as int);
        choices.push(
            Choice {
                index: choice.index,
                message: None,
                delta: Some(
                    Delta {
                        role: clone_opt_string(&choice.delta.role),
                        content: clone_opt_string(&choice.delta.content),
                        tool_calls,
                    },
                ),
                finish_reason: clone_opt_string(&choice.finish_reason),
            },
        );
        assert(choices.deep_view() == before.push(converted_stream_choice(*choice)));
        assert(chunk.choices@.take(i + 1) == prefix.push(*choice));
        assert(prefix.push(*choice).map_values(|ch: StreamChoice| converted_stream_choice(ch))
            =~= prefix.map_values(|ch: StreamChoice| converted_stream_choice(ch)).push(
            converted_stream_choice(*choice),
        ));
        i = i + 1;
    }
    assert(chunk.choices@.take(chunk.choices.len() as int) == chunk.choices@);
    CompletionResponse {
        id: chunk.id.clone(),
        model: chunk.model.clone(),
        choices,
        usage: convert_usage(&chunk.usage),
    }
}

fn convert_tool_call_deltas(tcs: &Vec<StreamToolCallDelta>) -> (r: Vec<ToolCallDelta>)
    ensures
        r.deep_view() == tcs@.map_values(|tc: StreamToolCallDelta| converted_tool_call_delta(tc)),
{
    let mut out: Vec<ToolCallDelta> = Vec::new();
    let mut i: usize = 0;
    while i < tcs.len()
        invariant
            i <= tcs.len(),
            out.deep_view() == tcs@.take(i as int).map_values(
                |tc: StreamToolCallDelta| converted_tool_call_delta(tc),
            ),
        decreases tcs.len() - i,
    {
        let tc = &tcs[i];
        let (name, arguments) = match &tc.function {
            Some(f) => (clone_opt_string(&f.name), clone_opt_string(&f.arguments)),
            None => (None, None),
        };
        let ghost before = out.deep_view();
        let ghost prefix = tcs@.take(i as int);
        out.push(ToolCallDelta { index: tc.index, id: clone_opt_string(&tc.id), name, arguments });
        assert(out.deep_view() == before.push(converted_tool_call_delta(*tc)));
        assert(tcs@.take(i + 1) == prefix.push(*tc));
        assert(prefix.push(*tc).map_values(|tc: StreamToolCallDelta| converted_tool_call_delta(tc))
            =~= prefix.map_values(|tc: StreamToolCallDelta| converted_tool_call_delta(tc)).push(
            converted_tool_call_delta(*tc),
        ));
        i = i + 1;
    }
    assert(tcs@.take(tcs.len() as int) == tcs@);
    out
}

// ---------------------------------------------------------------------
// The provider
// ---------------------------------------------------------------------

/// OpenRouter provider: its credentials, its endpoint, and the
/// conversions between the two request shapes.
pub struct OpenRouterProvider {
    api_key: String,
    base_url: String,
    json_repair: JsonRepair,
}

impl OpenRouterProvider {
    /// The API key.
    pub closed spec fn spec_api_key(&self) -> Seq<char> {
        self.api_key@
    }

    /// The base URL of the API.
    pub closed spec fn spec_base_url(&self) -> Seq<char> {
        self.base_url@
    }

    /// The repair settings used on tool-call arguments.
    pub closed spec fn repair_config(&self) -> JsonRepairConfig {
        self.json_repair.config()
    }

    /// A provider for the given key and base URL; tool-call arguments are
    /// repaired with every repair enabled and up to three retries.
    pub fn new(api_key: String, base_url: String) -> (r: Self)
        ensures
            r.spec_api_key() == api_key@,
            r.spec_base_url() == base_url@,
            r.repair_config() == (JsonRepairConfig {
                max_retries: 3,
                fix_unquoted_keys: true,
                fix_trailing_commas: true,
                fix_mismatched_brackets: true,
                fix_single_quotes: true,
            }),
    {
        Self { api_key, base_url, json_repair: JsonRepair::new(3) }
    }

    /// The provider's name.
    pub fn name(&self) -> (r: &'static str)
        ensures
            r@ == "openrouter"@,
    {
        "openrouter"
    }

    /// The chat completions endpoint.
    pub fn chat_completions_url(&self) -> (r: String)
        ensures
            r@ == self.spec_base_url() + "/chat/completions"@,
    {
        let mut url = self.base_url.clone();
        url.append("/chat/completions");
        url
    }

    /// The value of the `Authorization` header.
    pub fn authorization(&self) -> (r: String)
        ensures
            r@ == "Bearer "@ + self.spec_api_key(),
    {
        let mut value = String::from_str("Bearer ");
        value.append(self.api_key.as_str());
        value
    }

    /// Whether the provider accepts tools.
    pub fn supports_tools(&self) -> (r: bool)
        ensures
            r,
    {
        true
    }

    /// Whether the provider streams replies.
    pub fn supports_streams(&self) -> (r: bool)
        ensures
            r,
    {
        true
    }

    /// Convert our internal request to OpenRouter format
    pub fn convert_request(&self, request: &CompletionRequest) -> (r: ChatCompletionRequest)
        ensures
            r.deep_view() == converted_request(request.deep_view()),
    {
        let messages = convert_messages(&request.messages);
        let tools = match &request.tools {
            Some(ts) => Some(convert_tools(ts)),
            None => None,
        };
        let tool_choice = match &request.tool_choice {
            Some(c) => Some(convert_tool_choice(c)),
            None => None,
        };
        ChatCompletionRequest {
            model: request.model.clone(),
            messages,
            temperature_bits: request.temperature_bits,
            max_tokens: request.max_tokens,
            stream: request.stream,
            tools,
            tool_choice,
        }
    }

    /// Convert OpenRouter response to our internal format, repairing
    /// malformed tool-call argument JSON along the way (flaky models
    /// occasionally emit near-miss JSON for function arguments).
    pub fn convert_response(&self, response: &ChatCompletionResponse) -> (r: CompletionResponse)
        ensures
            r.deep_view() == converted_response(self.repair_config(), *response),
            carries_usage(r.usage, response.usage),
    {
        let ghost config = self.repair_config();
        let mut choices: Vec<Choice> = Vec::new();
        let mut i: usize = 0;
        while i < response.choices.len()
            invariant
                i <= response.choices.len(),
                config == self.repair_config(),
                choices.deep_view() == response.choices@.take(i as int).map_values(
                    |c: ResponseChoice| converted_reply_choice(config, c),
                ),
            decreases response.choices.len() - i,
        {
            let choice = &response.choices[i];
            let message = match &choice.message {
                Some(m) => Some(self.convert_reply_message(m)),
                None => None,
            };
            let ghost before = choices.deep_view();
            let ghost prefix = response.choices@.take(i as int);
            choices.push(
                Choice {
                    index: choice.index,
                    message,
                    delta: None,
                    finish_reason: clone_opt_string(&choice.finish_reason),
                },
            );
            assert(choices.deep_view() == before.push(converted_reply_choice(config, *choice)));
            assert(response.choices@.take(i + 1) == prefix.push(*choice));
            assert(prefix.push(*choice).map_values(|c: ResponseChoice| converted_reply_choice(config, c))
                =~= prefix.map_values(|c: ResponseChoice| converted_reply_choice(config, c)).push(
                converted_reply_choice(config, *choice),
            ));
            i = i + 1;
        }
        assert(response.choices@.take(response.choices.len() as int) == response.choices@);
        CompletionResponse {
            id: response.id.clone(),
            model: response.model.clone(),
            choices,
            usage: convert_usage(&response.usage),
        }
    }

    /// The assistant message for a reply message.
    fn convert_reply_message(&self, msg: &ResponseMessage) -> (r: Message)
        ensures
            r.deep_view() == converted_reply_message(self.repair_config(), *msg),
    {
        let ghost config = self.repair_config();
        let mut content: Vec<ContentBlock> = Vec::new();
        if let Some(text) = &msg.content {
            if text.unicode_len() > 0 {
                content.push(
                    ContentBlock {
                        content_type: String::from_str("text"),
                        text: Some(text.clone()),
                        source: None,
                        id: None,
                        name: None,
                        input: None,
                        tool_use_id: None,
                        is_error: None,
                    },
                );
            }
        }
        let ghost text_part = content.deep_view();
        if let Some(tool_calls) = &msg.tool_calls {
            let mut i: usize = 0;
            while i < tool_calls.len()
                invariant
                    i <= tool_calls.len(),
                    config == self.repair_config(),
                    content.deep_view() == text_part + tool_use_blocks(config, tool_calls@.take(i as int)),
                decreases tool_calls.len() - i,
            {
                let tc = &tool_calls[i];
                let input = match self.json_repair.parse_with_repair(tc.function.arguments.as_str()) {
                    Ok(v) => v,
                    Err(_) => String::from_str("{}"),
                };
                assert(tool_calls@.take(i + 1).drop_last() == tool_calls@.take(i as int));
                assert(input@ == tool_input(config, tc.function.arguments@));
                let ghost before = content.deep_view();
                content.push(
                    ContentBlock {
                        content_type: String::from_str("tool_use"),
                        text: None,
                        source: None,
                        id: Some(tc.id.clone()),
                        name: Some(tc.function.name.clone()),
                        input: Some(input),
                        tool_use_id: None,
                        is_error: None,
                    },
                );
                assert(content.deep_view() == before.push(tool_use_block_view(config, *tc)));
                assert(text_part + tool_use_blocks(config, tool_calls@.take(i + 1)) =~= (text_part
                    + tool_use_blocks(config, tool_calls@.take(i as int))).push(
                    tool_use_block_view(config, *tc),
                ));
                i = i + 1;
            }
            assert(tool_calls@.take(tool_calls.len() as int) == tool_calls@);
        }
        assert(content.deep_view() =~= converted_reply_message(config, *msg).content);
        Message { role: String::from_str("assistant"), content }
    }
}

} // verus!
