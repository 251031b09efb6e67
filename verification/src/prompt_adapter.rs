//! Prompt adapters: provider-specific instructions appended to the
//! system prompt.
use vstd::prelude::*;
use vstd::string::*;
use crate::provider_types::{Message, MessageView, ContentBlockView};
use crate::string_map::{StringMap, lookup};
use crate::text::str_eq;

verus! {

/// The instruction appended for DeepSeek models.
pub open spec fn deepseek_instruction() -> Seq<char> {
    "\n\nPlease think through this step by step and explain your reasoning."@
}

/// The instruction appended for Qwen models.
pub open spec fn qwen_instruction() -> Seq<char> {
    "\n\nProvide your response in valid JSON format."@
}

/// The instruction appended for OpenAI models.
pub open spec fn openai_instruction() -> Seq<char> {
    "\n\nFeel free to use functions when appropriate to complete the task."@
}

/// The conversation with `suffix` appended to the text of the first block
/// of the first message, when that message is a system message and that
/// block has text; otherwise the conversation unchanged.
pub open spec fn with_system_suffix(msgs: Seq<MessageView>, suffix: Seq<char>) -> Seq<MessageView> {
    if msgs.len() > 0 && msgs[0].role == "system"@ && msgs[0].content.len() > 0
        && msgs[0].content[0].text is Some {
        let first = msgs[0];
        let block = first.content[0];
        let block2 = ContentBlockView { text: Some(block.text->0 + suffix), ..block };
        msgs.update(0, MessageView { content: first.content.update(0, block2), ..first })
    } else {
        msgs
    }
}

/// Appends `suffix` to the system prompt's first text block.
fn append_to_system_prompt(messages: Vec<Message>, suffix: &str) -> (r: Vec<Message>)
    ensures
        r.deep_view() == with_system_suffix(messages.deep_view(), suffix@),
{
    let ghost msgs = messages.deep_view();
    let mut adapted = messages;
    if adapted.len() == 0 {
        return adapted;
    }
    if !str_eq(adapted[0].role.as_str(), "system") || adapted[0].content.len() == 0 {
        return adapted;
    }
    if adapted[0].content[0].text.is_none() {
        return adapted;
    }
    let mut first = adapted.remove(0);
    let mut block = first.content.remove(0);
    let text = match block.text {
        Some(t) => {
            let mut t2 = t;
            t2.append(suffix);
            t2
        },
        None => String::new(),
    };
    block.text = Some(text);
    first.content.insert(0, block);
    adapted.insert(0, first);
    assert(adapted.deep_view() =~= with_system_suffix(msgs, suffix@)) by {
        let m0 = msgs[0];
        assert(adapted@[0].content.deep_view() =~= m0.content.update(
            0,
            ContentBlockView { text: Some(m0.content[0].text->0 + suffix@), ..m0.content[0] },
        ));
    }
    adapted
}

/// Provider-specific adaptation of a conversation, for users to implement
/// for adapters of their own.
pub trait ProviderAdapter: Send + Sync {
    /// Adapt messages for this provider
    fn adapt_messages(&self, messages: Vec<Message>) -> Vec<Message>;

    /// Get provider name
    fn provider_name(&self) -> &'static str;
}

/// Adapter for DeepSeek models
#[derive(Debug, Clone, Copy, PartialEq, Eq, Structural)]
pub struct DeepSeekAdapter {
    pub enable_reasoning: bool,
}

impl DeepSeekAdapter {
    pub fn new() -> (r: Self)
        ensures
            r.enable_reasoning,
    {
        Self { enable_reasoning: true }
    }

    pub fn with_config(enable_reasoning: bool) -> (r: Self)
        ensures
            r.enable_reasoning == enable_reasoning,
    {
        Self { enable_reasoning }
    }
}

impl ProviderAdapter for DeepSeekAdapter {
    /// When enabled, asks for step-by-step reasoning in the system prompt.
    fn adapt_messages(&self, messages: Vec<Message>) -> (r: Vec<Message>)
        ensures
            r.deep_view() == if self.enable_reasoning {
                with_system_suffix(messages.deep_view(), deepseek_instruction())
            } else {
                messages.deep_view()
            },
    {
        if !self.enable_reasoning {
            return messages;
        }
        append_to_system_prompt(
            messages,
            "\n\nPlease think through this step by step and explain your reasoning.",
        )
    }

    fn provider_name(&self) -> (r: &'static str)
        ensures
            r@ == "deepseek"@,
    {
        "deepseek"
    }
}

/// Adapter for Qwen models
#[derive(Debug, Clone, Copy, PartialEq, Eq, Structural)]
pub struct QwenAdapter {
    pub enable_json_format: bool,
}

impl QwenAdapter {
    pub fn new() -> (r: Self)
        ensures
            r.enable_json_format,
    {
        Self { enable_json_format: true }
    }

    pub fn with_config(enable_json_format: bool) -> (r: Self)
        ensures
            r.enable_json_format == enable_json_format,
    {
        Self { enable_json_format }
    }
}

impl ProviderAdapter for QwenAdapter {
    /// When enabled, asks for valid JSON in the system prompt.
    fn adapt_messages(&self, messages: Vec<Message>) -> (r: Vec<Message>)
        ensures
            r.deep_view() == if self.enable_json_format {
                with_system_suffix(messages.deep_view(), qwen_instruction())
            } else {
                messages.deep_view()
            },
    {
        if !self.enable_json_format {
            return messages;
        }
        append_to_system_prompt(messages, "\n\nProvide your response in valid JSON format.")
    }

    fn provider_name(&self) -> (r: &'static str)
        ensures
            r@ == "qwen"@,
    {
        "qwen"
    }
}

/// Adapter for OpenAI models
#[derive(Debug, Clone, Copy, PartialEq, Eq, Structural)]
pub struct OpenAIAdapter {
    pub enable_functions: bool,
}

impl OpenAIAdapter {
    pub fn new() -> (r: Self)
        ensures
            r.enable_functions,
    {
        Self { enable_functions: true }
    }

    pub fn with_config(enable_functions: bool) -> (r: Self)
        ensures
            r.enable_functions == enable_functions,
    {
        Self { enable_functions }
    }
}

impl ProviderAdapter for OpenAIAdapter {
    /// When enabled, encourages function calling in the system prompt.
    fn adapt_messages(&self, messages: Vec<Message>) -> (r: Vec<Message>)
        ensures
            r.deep_view() == if self.enable_functions {
                with_system_suffix(messages.deep_view(), openai_instruction())
            } else {
                messages.deep_view()
            },
    {
        if !self.enable_functions {
            return messages;
        }
        append_to_system_prompt(
            messages,
            "\n\nFeel free to use functions when appropriate to complete the task.",
        )
    }

    fn provider_name(&self) -> (r: &'static str)
        ensures
            r@ == "openai"@,
    {
        "openai"
    }
}

/// One of the adapters a [`PromptAdapter`] can hold: a built-in one, or
/// one that a user registered.
pub enum Adapter {
    DeepSeek(DeepSeekAdapter),
    Qwen(QwenAdapter),
    OpenAI(OpenAIAdapter),
    Custom(Box<dyn ProviderAdapter>),
}

/// What a built-in adapter makes of a conversation; none for an adapter
/// that a user registered, which is not verified and whose result is its own.
pub open spec fn adapted_by(a: Adapter, msgs: Seq<MessageView>) -> Option<Seq<MessageView>> {
    match a {
        Adapter::DeepSeek(d) => Some(
            if d.enable_reasoning {
                with_system_suffix(msgs, deepseek_instruction())
            } else {
                msgs
            },
        ),
        Adapter::Qwen(q) => Some(
            if q.enable_json_format {
                with_system_suffix(msgs, qwen_instruction())
            } else {
                msgs
            },
        ),
        Adapter::OpenAI(o) => Some(
            if o.enable_functions {
                with_system_suffix(msgs, openai_instruction())
            } else {
                msgs
            },
        ),
        Adapter::Custom(_) => None,
    }
}

impl Adapter {
    /// Adapts the conversation with the adapter held.
    pub fn adapt_messages(&self, messages: Vec<Message>) -> (r: Vec<Message>)
        ensures
            adapted_by(*self, messages.deep_view()) matches Some(v) ==> r.deep_view() == v,
    {
        match self {
            Adapter::DeepSeek(d) => d.adapt_messages(messages),
            Adapter::Qwen(q) => q.adapt_messages(messages),
            Adapter::OpenAI(o) => o.adapt_messages(messages),
            Adapter::Custom(c) => c.adapt_messages(messages),
        }
    }
}

/// Configuration for prompt adapters
#[derive(Debug, Clone, PartialEq)]
pub struct PromptAdapterConfig {
    /// Whether to add reasoning instructions for DeepSeek models
    pub deepseek_reasoning: bool,
    /// Whether to enforce JSON format for Qwen models
    pub qwen_json_format: bool,
    /// Whether to encourage function calling for OpenAI models
    pub openai_functions: bool,
    /// Custom instructions for different providers
    pub custom_instructions: StringMap<String>,
}

/// The adapters registered for a configuration, by provider family.
pub open spec fn adapters_for(config: PromptAdapterConfig) -> Map<Seq<char>, Adapter> {
    map![
        "deepseek"@ => Adapter::DeepSeek(DeepSeekAdapter { enable_reasoning: config.deepseek_reasoning }),
        "qwen"@ => Adapter::Qwen(QwenAdapter { enable_json_format: config.qwen_json_format }),
        "openai"@ => Adapter::OpenAI(OpenAIAdapter { enable_functions: config.openai_functions }),
    ]
}

/// The adapters of the default configuration: all three enabled.
pub open spec fn default_adapters() -> Map<Seq<char>, Adapter> {
    map![
        "deepseek"@ => Adapter::DeepSeek(DeepSeekAdapter { enable_reasoning: true }),
        "qwen"@ => Adapter::Qwen(QwenAdapter { enable_json_format: true }),
        "openai"@ => Adapter::OpenAI(OpenAIAdapter { enable_functions: true }),
    ]
}

/// Prompt adapter for customizing prompts for different providers
pub struct PromptAdapter {
    config: PromptAdapterConfig,
    adapters: StringMap<Adapter>,
}

impl PromptAdapter {
    /// The configuration in force.
    pub closed spec fn config(&self) -> PromptAdapterConfig {
        self.config
    }

    /// The registered adapters, by provider family.
    pub closed spec fn adapters(&self) -> Map<Seq<char>, Adapter> {
        self.adapters.spec_map()
    }

    /// The registered adapters keep distinct names.
    pub closed spec fn wf(&self) -> bool {
        self.adapters.wf()
    }

    /// Create a new prompt adapter with default configuration
    pub fn new() -> (r: Self)
        ensures
            r.wf(),
            r.config().deepseek_reasoning && r.config().qwen_json_format && r.config().openai_functions,
            r.adapters() == default_adapters(),
    {
        let config = Self::default_config();
        let r = Self::with_config(config);
        assert(adapters_for(r.config()) =~= default_adapters());
        r
    }

    fn register(adapters: &mut StringMap<Adapter>, config: &PromptAdapterConfig)
        requires
            old(adapters).wf(),
            old(adapters).spec_map() == Map::<Seq<char>, Adapter>::empty(),
        ensures
            final(adapters).wf(),
            final(adapters).spec_map() == adapters_for(*config),
    {
        adapters.insert(
            String::from_str("deepseek"),
            Adapter::DeepSeek(DeepSeekAdapter::with_config(config.deepseek_reasoning)),
        );
        adapters.insert(
            String::from_str("qwen"),
            Adapter::Qwen(QwenAdapter::with_config(config.qwen_json_format)),
        );
        adapters.insert(
            String::from_str("openai"),
            Adapter::OpenAI(OpenAIAdapter::with_config(config.openai_functions)),
        );
        assert(adapters.spec_map() =~= adapters_for(*config));
    }

    /// Create a new prompt adapter with custom configuration
    pub fn with_config(config: PromptAdapterConfig) -> (r: Self)
        ensures
            r.wf(),
            r.config() == config,
            r.adapters() == adapters_for(config),
    {
        let mut adapters = StringMap::new();
        Self::register(&mut adapters, &config);
        Self { config, adapters }
    }

    /// Create default prompt adapter configuration
    pub fn default_config() -> (r: PromptAdapterConfig)
        ensures
            r.deepseek_reasoning,
            r.qwen_json_format,
            r.openai_functions,
            r.custom_instructions.wf(),
            r.custom_instructions.spec_map().map_values(|s: String| s@) == map![
                "deepseek"@ => "Please think through this step by step and explain your reasoning."@,
                "qwen"@ => "Provide your response in valid JSON format."@,
                "openai"@ => "Feel free to use functions when appropriate to complete the task."@,
            ],
    {
        let mut custom_instructions: StringMap<String> = StringMap::new();
        custom_instructions.insert(
            String::from_str("deepseek"),
            String::from_str("Please think through this step by step and explain your reasoning."),
        );
        custom_instructions.insert(
            String::from_str("qwen"),
            String::from_str("Provide your response in valid JSON format."),
        );
        custom_instructions.insert(
            String::from_str("openai"),
            String::from_str("Feel free to use functions when appropriate to complete the task."),
        );
        assert(custom_instructions.spec_map().map_values(|s: String| s@) =~= map![
            "deepseek"@ => "Please think through this step by step and explain your reasoning."@,
            "qwen"@ => "Provide your response in valid JSON format."@,
            "openai"@ => "Feel free to use functions when appropriate to complete the task."@,
        ]);
        PromptAdapterConfig {
            deepseek_reasoning: true,
            qwen_json_format: true,
            openai_functions: true,
            custom_instructions,
        }
    }

    /// Adapt prompt for a specific provider: with its adapter when one is
    /// registered, unchanged otherwise. What an adapter that a user
    /// registered makes of the prompt is that adapter's own and not stated.
    pub fn adapt_prompt(&self, provider_name: &str, messages: Vec<Message>) -> (r: Vec<Message>)
        ensures
            !self.adapters().contains_key(provider_name@) ==> r.deep_view() == messages.deep_view(),
            self.adapters().contains_key(provider_name@) ==> (adapted_by(
                self.adapters()[provider_name@],
                messages.deep_view(),
            ) matches Some(v) ==> r.deep_view() == v),
    {
        match self.adapters.get(provider_name) {
            Some(adapter) => adapter.adapt_messages(messages),
            None => messages,
        }
    }

    /// Get list of supported providers
    pub fn supported_providers(&self) -> (r: Vec<String>)
        requires
            self.wf(),
        ensures
            forall|k: Seq<char>| self.adapters().contains_key(k) <==> r.deep_view().contains(k),
            r.deep_view().no_duplicates(),
    {
        let r = self.adapters.keys();
        proof {
            self.adapters.lemma_keys_are_domain();
        }
        r
    }

    /// Add a custom adapter: the conversations of `provider_name` are then
    /// adapted by it.
    pub fn add_adapter(&mut self, provider_name: String, adapter: Box<dyn ProviderAdapter>)
        requires
            old(self).wf(),
        ensures
            final(self).wf(),
            final(self).config() == old(self).config(),
            final(self).adapters() == old(self).adapters().insert(
                provider_name@,
                Adapter::Custom(adapter),
            ),
    {
        self.adapters.insert(provider_name, Adapter::Custom(adapter));
    }

    /// Update configuration: the adapters are rebuilt from it.
    pub fn update_config(&mut self, config: PromptAdapterConfig)
        ensures
            final(self).wf(),
            final(self).config() == config,
            final(self).adapters() == adapters_for(config),
    {
        let mut adapters = StringMap::new();
        Self::register(&mut adapters, &config);
        self.adapters = adapters;
        self.config = config;
    }
}

/// A disabled adapter leaves the conversation as it is.
pub proof fn lemma_disabled_adapter_is_identity(a: Adapter, msgs: Seq<MessageView>)
    requires
        match a {
            Adapter::DeepSeek(d) => !d.enable_reasoning,
            Adapter::Qwen(q) => !q.enable_json_format,
            Adapter::OpenAI(o) => !o.enable_functions,
            Adapter::Custom(_) => false,
        },
    ensures
        adapted_by(a, msgs) == Some(msgs),
{
}

/// A built-in adapter touches nothing but the text of the system prompt's
/// first block, to which it appends: the conversation keeps its length and
/// every other message, block and field.
pub proof fn lemma_adaptation_only_appends(a: Adapter, msgs: Seq<MessageView>)
    requires
        !(a is Custom),
    ensures
        adapted_by(a, msgs) is Some,
        adapted_by(a, msgs)->0.len() == msgs.len(),
        forall|i: int| 1 <= i < msgs.len() ==> #[trigger] adapted_by(a, msgs)->0[i] == msgs[i],
        msgs.len() > 0 ==> adapted_by(a, msgs)->0[0].role == msgs[0].role,
        msgs.len() > 0 ==> adapted_by(a, msgs)->0[0].content.len() == msgs[0].content.len(),
        msgs.len() > 0 ==> forall|j: int|
            1 <= j < msgs[0].content.len() ==> #[trigger] adapted_by(a, msgs)->0[0].content[j]
                == msgs[0].content[j],
        msgs.len() > 0 && msgs[0].content.len() > 0 ==> ({
            let b = adapted_by(a, msgs)->0[0].content[0];
            let o = msgs[0].content[0];
            &&& b.content_type == o.content_type
            &&& b.source == o.source
            &&& b.input == o.input
            &&& (o.text is None ==> b.text is None)
            &&& (o.text matches Some(t) ==> b.text matches Some(u) && u.take(t.len() as int) == t)
        }),
{
}

} // verus!
