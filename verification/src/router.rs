//! The model router: picks a role for a request from its text, resolves
//! the role to a model, adapts the prompt for the model's family and names
//! the provider that serves it.
use vstd::prelude::*;
use vstd::string::*;
use crate::config::{Config, model_for_role};
use crate::rules_engine::{RulesEngine, selected_role, compiled_rules_of};
use crate::prompt_adapter::{PromptAdapter, Adapter, adapted_by, default_adapters};
use crate::provider_types::{
    CompletionRequest,
    CompletionRequestView,
    ContentBlockView,
    Message,
    MessageView,
};
use crate::string_map::StringMap;
use std::sync::Arc;
use crate::text::{joined, join_strings, occurs_in, str_contains, lowercase, to_lowercase};

verus! {

/// The texts of the blocks that have one, in order.
pub open spec fn block_texts(blocks: Seq<ContentBlockView>) -> Seq<Seq<char>>
    decreases blocks.len(),
{
    if blocks.len() == 0 {
        Seq::empty()
    } else {
        let prefix = block_texts(blocks.drop_last());
        match blocks.last().text {
            Some(t) => prefix.push(t),
            None => prefix,
        }
    }
}

/// The texts of all blocks of all messages, in order.
pub open spec fn message_texts(msgs: Seq<MessageView>) -> Seq<Seq<char>>
    decreases msgs.len(),
{
    if msgs.len() == 0 {
        Seq::empty()
    } else {
        message_texts(msgs.drop_last()) + block_texts(msgs.last().content)
    }
}

/// The text that role selection reads: every block text, joined by spaces.
pub open spec fn request_text(msgs: Seq<MessageView>) -> Seq<char> {
    joined(message_texts(msgs), " "@)
}

/// The model for a role: the role's own model, else the default role's
/// model, else the default role's name.
pub open spec fn resolved_model(config: Config, role: Seq<char>) -> Seq<char> {
    match model_for_role(config, role) {
        Some(m) => m,
        None => match model_for_role(config, config.default_role@) {
            Some(m) => m,
            None => config.default_role@,
        },
    }
}

/// The prompt-adapter family of a lowercased model id.
pub open spec fn family_of_lowercase(lower: Seq<char>) -> Seq<char> {
    if occurs_in("deepseek"@, lower) {
        "deepseek"@
    } else if occurs_in("qwen"@, lower) {
        "qwen"@
    } else if occurs_in("gpt"@, lower) || occurs_in("openai"@, lower) {
        "openai"@
    } else {
        "unknown"@
    }
}

/// The prompt-adapter family of a model id, read from its lowercase form.
pub open spec fn model_family(model: Seq<char>) -> Seq<char> {
    family_of_lowercase(lowercase(model))
}

/// The messages as the adapter registered for `family` leaves them.
pub open spec fn adapted_for(
    adapters: Map<Seq<char>, Adapter>,
    family: Seq<char>,
    msgs: Seq<MessageView>,
) -> Seq<MessageView> {
    if adapters.contains_key(family) && adapted_by(adapters[family], msgs) is Some {
        adapted_by(adapters[family], msgs)->0
    } else {
        msgs
    }
}

/// A request as it leaves the router: its model resolved from the selected
/// role, its prompt adapted for that model's family, and, for a stream,
/// streaming switched on.
pub open spec fn routed(
    config: Config,
    rules: Seq<(Seq<char>, Seq<char>)>,
    adapters: Map<Seq<char>, Adapter>,
    req: CompletionRequestView,
    streaming: bool,
) -> CompletionRequestView {
    let role = selected_role(rules, config.default_role@, request_text(req.messages));
    let model = resolved_model(config, role);
    CompletionRequestView {
        model: model,
        messages: adapted_for(adapters, model_family(model), req.messages),
        stream: if streaming {
            Some(true)
        } else {
            req.stream
        },
        ..req
    }
}

/// The name under which the provider that serves routed requests is
/// registered.
pub open spec fn routing_provider_name() -> Seq<char> {
    "openrouter"@
}

/// Model router responsible for routing requests to appropriate providers.
/// `P` is the handle through which a provider is called.
#[derive(Clone)]
pub struct ModelRouter<P> {
    rules_engine: RulesEngine,
    providers: StringMap<P>,
    prompt_adapter: Arc<PromptAdapter>,
}

impl<P> ModelRouter<P> {
    /// The configuration the router was built from.
    pub closed spec fn config(&self) -> Config {
        self.rules_engine.config()
    }

    /// The routing rules in force.
    pub closed spec fn rules(&self) -> Seq<(Seq<char>, Seq<char>)> {
        self.rules_engine.rules()
    }

    /// The registered providers, by name.
    pub closed spec fn providers(&self) -> Map<Seq<char>, P> {
        self.providers.spec_map()
    }

    /// The prompt adapters, by family.
    pub closed spec fn adapters(&self) -> Map<Seq<char>, Adapter> {
        self.prompt_adapter.adapters()
    }

    /// The provider and adapter tables keep distinct names, and the
    /// adapters are the built-in ones.
    pub closed spec fn wf(&self) -> bool {
        &&& self.providers.wf()
        &&& self.prompt_adapter.wf()
        &&& self.prompt_adapter.adapters() == default_adapters()
    }

    /// Create a new model router: the configured rules whose pattern
    /// compiles, no provider, the default prompt adapters.
    pub fn new(config: Config) -> (r: Self)
        ensures
            r.wf(),
            r.config() == config,
            r.rules() == compiled_rules_of(config.routing.rules@),
            r.providers() == Map::<Seq<char>, P>::empty(),
            r.adapters() == default_adapters(),
    {
        let rules_engine = RulesEngine::new(config);
        Self { rules_engine, providers: StringMap::new(), prompt_adapter: Arc::new(PromptAdapter::new()) }
    }

    /// Add a provider to the router
    pub fn add_provider(&mut self, name: &str, provider: P)
        requires
            old(self).wf(),
        ensures
            final(self).wf(),
            final(self).providers() == old(self).providers().insert(name@, provider),
            final(self).config() == old(self).config(),
            final(self).rules() == old(self).rules(),
            final(self).adapters() == old(self).adapters(),
    {
        self.providers.insert(String::from_str(name), provider);
    }

    /// The provider that serves routed requests, when one is registered.
    pub fn routing_provider(&self) -> (r: Option<&P>)
        ensures
            r is Some <==> self.providers().contains_key(routing_provider_name()),
            r matches Some(p) ==> *p == self.providers()[routing_provider_name()],
    {
        self.providers.get("openrouter")
    }

    /// The request to send for a completion.
    pub fn routed_request(&self, request: CompletionRequest) -> (r: CompletionRequest)
        requires
            self.wf(),
        ensures
            r.deep_view() == routed(
                self.config(),
                self.rules(),
                self.adapters(),
                request.deep_view(),
                false,
            ),
    {
        self.route(request, false)
    }

    /// The request to send for a streamed completion.
    pub fn routed_stream_request(&self, request: CompletionRequest) -> (r: CompletionRequest)
        requires
            self.wf(),
        ensures
            r.deep_view() == routed(
                self.config(),
                self.rules(),
                self.adapters(),
                request.deep_view(),
                true,
            ),
    {
        self.route(request, true)
    }

    fn route(&self, request: CompletionRequest, streaming: bool) -> (r: CompletionRequest)
        requires
            self.wf(),
        ensures
            r.deep_view() == routed(
                self.config(),
                self.rules(),
                self.adapters(),
                request.deep_view(),
                streaming,
            ),
    {
        let role = self.select_role(&request);
        let model = self.resolve_model(role.as_str());
        let family = Self::provider_family_for_model(model.as_str());
        let mut routed_request = request;
        routed_request.model = model;
        if streaming {
            routed_request.stream = Some(true);
        }
        let mut messages: Vec<Message> = Vec::new();
        std::mem::swap(&mut messages, &mut routed_request.messages);
        routed_request.messages = self.prompt_adapter.adapt_prompt(family, messages);
        routed_request
    }

    /// Resolve a role to a concrete model id, falling back to the default
    /// role's model (not the default role's *name*) if the role is unknown.
    fn resolve_model(&self, role: &str) -> (r: String)
        ensures
            r@ == resolved_model(self.config(), role@),
    {
        match self.get_model_for_role(role) {
            Some(m) => m,
            None => {
                let default_role = self.rules_engine.get_config().get_default_role();
                match self.get_model_for_role(default_role.as_str()) {
                    Some(m) => m,
                    None => default_role,
                }
            },
        }
    }

    /// Guess which prompt-adapter family a model id belongs to, based on
    /// the OpenRouter model slug (e.g. "deepseek/deepseek-r1").
    pub fn provider_family_for_model(model: &str) -> (r: &'static str)
        ensures
            r@ == model_family(model@),
    {
        let lower = to_lowercase(model);
        if str_contains(lower.as_str(), "deepseek") {
            "deepseek"
        } else if str_contains(lower.as_str(), "qwen") {
            "qwen"
        } else if str_contains(lower.as_str(), "gpt") || str_contains(lower.as_str(), "openai") {
            "openai"
        } else {
            "unknown"
        }
    }

    /// Select the appropriate role based on message content
    pub fn select_role(&self, request: &CompletionRequest) -> (r: String)
        ensures
            r@ == selected_role(
                self.rules(),
                self.config().default_role@,
                request_text(request.messages.deep_view()),
            ),
    {
        let texts = collect_texts(&request.messages);
        let content = join_strings(&texts, " ");
        self.rules_engine.select_role(content.as_str())
    }

    /// Get the model name for a given role
    pub fn get_model_for_role(&self, role: &str) -> (r: Option<String>)
        ensures
            r.deep_view() == model_for_role(self.config(), role@),
    {
        self.rules_engine.get_config().get_model_for_role(role)
    }

    /// Get all available roles
    pub fn get_roles(&self) -> (r: Vec<String>)
        ensures
            r.deep_view() == self.config().roles.spec_keys(),
    {
        self.rules_engine.get_roles()
    }
}

/// The texts of all blocks of all messages, in order.
fn collect_texts(messages: &Vec<Message>) -> (r: Vec<String>)
    ensures
        r.deep_view() == message_texts(messages.deep_view()),
{
    let ghost msgs = messages.deep_view();
    let mut out: Vec<String> = Vec::new();
    let mut i: usize = 0;
    while i < messages.len()
        invariant
            i <= messages.len(),
            msgs == messages.deep_view(),
            out.deep_view() == message_texts(msgs.take(i as int)),
        decreases messages.len() - i,
    {
        let blocks = &messages[i].content;
        let ghost bs = blocks.deep_view();
        let ghost base = out.deep_view();
        let mut j: usize = 0;
        while j < blocks.len()
            invariant
                j <= blocks.len(),
                bs == blocks.deep_view(),
                out.deep_view() == base + block_texts(bs.take(j as int)),
            decreases blocks.len() - j,
        {
            assert(bs.take(j + 1).drop_last() == bs.take(j as int));
            assert(bs.take(j + 1).last() == bs[j as int]);
            let ghost before = out.deep_view();
            match &blocks[j].text {
                Some(t) => {
                    out.push(t.clone());
                    assert(out.deep_view() =~= before.push(t@));
                    assert(base + block_texts(bs.take(j + 1)) =~= (base + block_texts(bs.take(j as int))).push(t@));
                },
                None => {},
            }
            j = j + 1;
        }
        assert(bs.take(blocks.len() as int) == bs);
        assert(msgs.take(i + 1).drop_last() == msgs.take(i as int));
        assert(msgs.take(i + 1).last() == msgs[i as int]);
        i = i + 1;
    }
    assert(msgs.take(messages.len() as int) == msgs);
    out
}

/// A routed request goes to a model that some role is configured with, or,
/// when not even the default role has one, to the default role's name.
pub proof fn lemma_resolved_model_is_configured(config: Config, role: Seq<char>)
    ensures
        resolved_model(config, role) == config.default_role@ || exists|r: Seq<char>|
            model_for_role(config, r) == Some(resolved_model(config, role)),
{
    if model_for_role(config, role) is Some {
        assert(model_for_role(config, role) == Some(resolved_model(config, role)));
    } else if model_for_role(config, config.default_role@) is Some {
        assert(model_for_role(config, config.default_role@) == Some(resolved_model(config, role)));
    }
}

} // verus!
