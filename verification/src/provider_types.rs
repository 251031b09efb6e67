//! The provider-neutral request and response model that the router passes
//! between the API layer and the providers.
//!
//! JSON values (tool inputs and schemas) are held as their compact JSON
//! text; a sampling temperature is held as the bit pattern of its `f32`.
use vstd::prelude::*;

verus! {

/// How the model should decide whether to use a tool
#[derive(Debug, Clone, PartialEq)]
pub enum ToolChoice {
    Auto,
    Any,
    Tool(String),
}

/// Abstract value of a [`ToolChoice`].
pub enum ToolChoiceView {
    Auto,
    Any,
    Tool(Seq<char>),
}

impl DeepView for ToolChoice {
    type V = ToolChoiceView;

    open spec fn deep_view(&self) -> ToolChoiceView {
        match self {
            ToolChoice::Auto => ToolChoiceView::Auto,
            ToolChoice::Any => ToolChoiceView::Any,
            ToolChoice::Tool(name) => ToolChoiceView::Tool(name@),
        }
    }
}

/// Content source structure
#[derive(Debug, Clone, PartialEq)]
pub struct ContentSource {
    pub source_type: String,
    pub media_type: String,
    pub data: String,
}

/// Abstract value of a [`ContentSource`].
pub struct ContentSourceView {
    pub source_type: Seq<char>,
    pub media_type: Seq<char>,
    pub data: Seq<char>,
}

impl DeepView for ContentSource {
    type V = ContentSourceView;

    open spec fn deep_view(&self) -> ContentSourceView {
        ContentSourceView {
            source_type: self.source_type@,
            media_type: self.media_type@,
            data: self.data@,
        }
    }
}

/// Content block structure
#[derive(Debug, Clone, PartialEq)]
pub struct ContentBlock {
    /// "text", "image", "tool_use", "tool_result", ...
    pub content_type: String,
    pub text: Option<String>,
    pub source: Option<ContentSource>,
    /// tool_use: the tool call's id. tool_result: unused (see tool_use_id).
    pub id: Option<String>,
    /// tool_use: the tool's name.
    pub name: Option<String>,
    /// tool_use: the tool's input arguments, as compact JSON text.
    pub input: Option<String>,
    /// tool_result: the id of the tool_use this result answers.
    pub tool_use_id: Option<String>,
    /// tool_result: whether the tool execution errored.
    pub is_error: Option<bool>,
}

/// Abstract value of a [`ContentBlock`].
pub struct ContentBlockView {
    pub content_type: Seq<char>,
    pub text: Option<Seq<char>>,
    pub source: Option<ContentSourceView>,
    pub id: Option<Seq<char>>,
    pub name: Option<Seq<char>>,
    pub input: Option<Seq<char>>,
    pub tool_use_id: Option<Seq<char>>,
    pub is_error: Option<bool>,
}

impl DeepView for ContentBlock {
    type V = ContentBlockView;

    open spec fn deep_view(&self) -> ContentBlockView {
        ContentBlockView {
            content_type: self.content_type@,
            text: self.text.deep_view(),
            source: self.source.deep_view(),
            id: self.id.deep_view(),
            name: self.name.deep_view(),
            input: self.input.deep_view(),
            tool_use_id: self.tool_use_id.deep_view(),
            is_error: self.is_error,
        }
    }
}

/// Message structure
#[derive(Debug, Clone, PartialEq)]
pub struct Message {
    pub role: String,
    pub content: Vec<ContentBlock>,
}

/// Abstract value of a [`Message`].
pub struct MessageView {
    pub role: Seq<char>,
    pub content: Seq<ContentBlockView>,
}

impl DeepView for Message {
    type V = MessageView;

    open spec fn deep_view(&self) -> MessageView {
        MessageView { role: self.role@, content: self.content.deep_view() }
    }
}

/// Tool structure
#[derive(Debug, Clone, PartialEq)]
pub struct Tool {
    pub name: String,
    pub description: String,
    /// The tool's input schema, as compact JSON text.
    pub input_schema: String,
}

/// Abstract value of a [`Tool`].
pub struct ToolView {
    pub name: Seq<char>,
    pub description: Seq<char>,
    pub input_schema: Seq<char>,
}

impl DeepView for Tool {
    type V = ToolView;

    open spec fn deep_view(&self) -> ToolView {
        ToolView {
            name: self.name@,
            description: self.description@,
            input_schema: self.input_schema@,
        }
    }
}

/// Common completion request structure
#[derive(Debug, Clone, PartialEq)]
pub struct CompletionRequest {
    pub model: String,
    pub messages: Vec<Message>,
    /// Sampling temperature, as the bit pattern of an `f32`.
    pub temperature_bits: Option<u32>,
    pub max_tokens: Option<u32>,
    pub stream: Option<bool>,
    pub tools: Option<Vec<Tool>>,
    pub tool_choice: Option<ToolChoice>,
}

/// Abstract value of a [`CompletionRequest`].
pub struct CompletionRequestView {
    pub model: Seq<char>,
    pub messages: Seq<MessageView>,
    pub temperature_bits: Option<u32>,
    pub max_tokens: Option<u32>,
    pub stream: Option<bool>,
    pub tools: Option<Seq<ToolView>>,
    pub tool_choice: Option<ToolChoiceView>,
}

impl DeepView for CompletionRequest {
    type V = CompletionRequestView;

    open spec fn deep_view(&self) -> CompletionRequestView {
        CompletionRequestView {
            model: self.model@,
            messages: self.messages.deep_view(),
            temperature_bits: self.temperature_bits,
            max_tokens: self.max_tokens,
            stream: self.stream,
            tools: self.tools.deep_view(),
            tool_choice: self.tool_choice.deep_view(),
        }
    }
}

/// A (possibly partial) tool call fragment as it arrives during streaming.
/// `id` and `name` are only present on the chunk that starts the tool call;
/// `arguments` arrives incrementally across many chunks and must be
/// accumulated by index by the caller.
#[derive(Debug, Clone, PartialEq)]
pub struct ToolCallDelta {
    pub index: usize,
    pub id: Option<String>,
    pub name: Option<String>,
    pub arguments: Option<String>,
}

/// Abstract value of a [`ToolCallDelta`].
pub struct ToolCallDeltaView {
    pub index: usize,
    pub id: Option<Seq<char>>,
    pub name: Option<Seq<char>>,
    pub arguments: Option<Seq<char>>,
}

impl DeepView for ToolCallDelta {
    type V = ToolCallDeltaView;

    open spec fn deep_view(&self) -> ToolCallDeltaView {
        ToolCallDeltaView {
            index: self.index,
            id: self.id.deep_view(),
            name: self.name.deep_view(),
            arguments: self.arguments.deep_view(),
        }
    }
}

/// Delta structure for streaming
#[derive(Debug, Clone, PartialEq)]
pub struct Delta {
    pub role: Option<String>,
    pub content: Option<String>,
    pub tool_calls: Option<Vec<ToolCallDelta>>,
}

/// Abstract value of a [`Delta`].
pub struct DeltaView {
    pub role: Option<Seq<char>>,
    pub content: Option<Seq<char>>,
    pub tool_calls: Option<Seq<ToolCallDeltaView>>,
}

impl DeepView for Delta {
    type V = DeltaView;

    open spec fn deep_view(&self) -> DeltaView {
        DeltaView {
            role: self.role.deep_view(),
            content: self.content.deep_view(),
            tool_calls: self.tool_calls.deep_view(),
        }
    }
}

/// Usage structure
#[derive(Debug, Clone, Copy, PartialEq, Eq, Structural)]
pub struct Usage {
    pub prompt_tokens: u32,
    pub completion_tokens: u32,
    pub total_tokens: u32,
}

/// Choice structure
#[derive(Debug, Clone, PartialEq)]
pub struct Choice {
    pub index: u32,
    pub message: Option<Message>,
    pub delta: Option<Delta>,
    pub finish_reason: Option<String>,
}

/// Abstract value of a [`Choice`].
pub struct ChoiceView {
    pub index: u32,
    pub message: Option<MessageView>,
    pub delta: Option<DeltaView>,
    pub finish_reason: Option<Seq<char>>,
}

impl DeepView for Choice {
    type V = ChoiceView;

    open spec fn deep_view(&self) -> ChoiceView {
        ChoiceView {
            index: self.index,
            message: self.message.deep_view(),
            delta: self.delta.deep_view(),
            finish_reason: self.finish_reason.deep_view(),
        }
    }
}

/// Common completion response structure
#[derive(Debug, Clone, PartialEq)]
pub struct CompletionResponse {
    pub id: String,
    pub model: String,
    pub choices: Vec<Choice>,
    pub usage: Option<Usage>,
}

/// Abstract value of a [`CompletionResponse`].
pub struct CompletionResponseView {
    pub id: Seq<char>,
    pub model: Seq<char>,
    pub choices: Seq<ChoiceView>,
    pub usage: Option<Usage>,
}

impl DeepView for CompletionResponse {
    type V = CompletionResponseView;

    open spec fn deep_view(&self) -> CompletionResponseView {
        CompletionResponseView {
            id: self.id@,
            model: self.model@,
            choices: self.choices.deep_view(),
            usage: self.usage,
        }
    }
}

} // verus!
