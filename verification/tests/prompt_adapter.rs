use claude_router::prompt_adapter::{
    DeepSeekAdapter, OpenAIAdapter, PromptAdapter, ProviderAdapter, QwenAdapter,
};
use claude_router::provider_types::{ContentBlock, Message};

fn system_messages() -> Vec<Message> {
    vec![Message {
        role: "system".to_string(),
        content: vec![ContentBlock {
            content_type: "text".to_string(),
            text: Some("You are a helpful assistant.".to_string()),
            source: None,
            id: None,
            name: None,
            input: None,
            tool_use_id: None,
            is_error: None,
        }],
    }]
}

#[test]
fn test_prompt_adapter_creation() {
    let adapter = PromptAdapter::new();
    assert!(!adapter.supported_providers().is_empty());
}

#[test]
fn test_deepseek_adapter() {
    let adapter = DeepSeekAdapter::new();
    let messages = system_messages();

    let adapted = adapter.adapt_messages(messages);
    assert!(!adapted.is_empty());
}

#[test]
fn test_qwen_adapter() {
    let adapter = QwenAdapter::new();
    let messages = system_messages();

    let adapted = adapter.adapt_messages(messages);
    assert!(!adapted.is_empty());

    // Check that JSON instruction was added
    if let Some(first_message) = adapted.first() {
        if let Some(first_content) = first_message.content.first() {
            if let Some(ref text) = first_content.text {
                assert!(text.contains("JSON"));
            }
        }
    }
}

#[test]
fn test_openai_adapter() {
    let adapter = OpenAIAdapter::new();
    let messages = system_messages();

    let adapted = adapter.adapt_messages(messages);
    assert!(!adapted.is_empty());

    // Check that function calling instruction was added
    if let Some(first_message) = adapted.first() {
        if let Some(first_content) = first_message.content.first() {
            if let Some(ref text) = first_content.text {
                assert!(text.contains("functions"));
            }
        }
    }
}

#[test]
fn test_disabled_adapters() {
    let deepseek_adapter = DeepSeekAdapter::with_config(false);
    let qwen_adapter = QwenAdapter::with_config(false);
    let openai_adapter = OpenAIAdapter::with_config(false);

    let messages = system_messages();

    // Disabled adapters should return original messages unchanged
    assert_eq!(deepseek_adapter.adapt_messages(messages.clone()), messages);
    assert_eq!(qwen_adapter.adapt_messages(messages.clone()), messages);
    assert_eq!(openai_adapter.adapt_messages(messages.clone()), messages);
}

#[test]
fn test_prompt_adapter_with_config() {
    let mut config = PromptAdapter::default_config();
    config.deepseek_reasoning = false;

    let mut adapter = PromptAdapter::new();
    adapter.update_config(config);

    assert!(!adapter.supported_providers().is_empty());
}

#[test]
fn instructions_are_appended_exactly() {
    let adapted = DeepSeekAdapter::new().adapt_messages(system_messages());
    assert_eq!(
        adapted[0].content[0].text,
        Some(
            "You are a helpful assistant.\n\nPlease think through this step by step and explain your reasoning."
                .to_string()
        )
    );
    assert_eq!(adapted[0].role, "system");
    assert_eq!(adapted[0].content[0].content_type, "text");
    assert_eq!(DeepSeekAdapter::new().provider_name(), "deepseek");
    assert_eq!(QwenAdapter::new().provider_name(), "qwen");
    assert_eq!(OpenAIAdapter::new().provider_name(), "openai");
}

#[test]
fn only_a_leading_system_prompt_is_touched() {
    let mut messages = system_messages();
    messages[0].role = "user".to_string();
    assert_eq!(QwenAdapter::new().adapt_messages(messages.clone()), messages);

    let mut messages = system_messages();
    messages[0].content[0].text = None;
    assert_eq!(QwenAdapter::new().adapt_messages(messages.clone()), messages);

    let empty: Vec<Message> = Vec::new();
    assert!(OpenAIAdapter::new().adapt_messages(empty).is_empty());

    let mut messages = system_messages();
    messages.push(Message { role: "system".to_string(), content: messages[0].content.clone() });
    let adapted = OpenAIAdapter::new().adapt_messages(messages.clone());
    assert_eq!(adapted[1], messages[1]);
    assert_ne!(adapted[0], messages[0]);
}

#[test]
fn adapt_prompt_dispatches_by_family() {
    let adapter = PromptAdapter::new();
    let mut names = adapter.supported_providers();
    names.sort();
    assert_eq!(names, vec!["deepseek".to_string(), "openai".to_string(), "qwen".to_string()]);
    assert_eq!(adapter.adapt_prompt("unknown", system_messages()), system_messages());
    assert_eq!(
        adapter.adapt_prompt("qwen", system_messages())[0].content[0].text,
        Some("You are a helpful assistant.\n\nProvide your response in valid JSON format.".to_string())
    );

    let mut config = PromptAdapter::default_config();
    config.deepseek_reasoning = false;
    let mut adapter = PromptAdapter::new();
    adapter.update_config(config);
    assert_eq!(adapter.adapt_prompt("deepseek", system_messages()), system_messages());

    let mut adapter = PromptAdapter::new();
    adapter.add_adapter("mistral".to_string(), Box::new(QwenAdapter::new()));
    assert_eq!(adapter.supported_providers().len(), 4);
    assert_eq!(
        adapter.adapt_prompt("mistral", system_messages()),
        QwenAdapter::new().adapt_messages(system_messages())
    );
}

#[test]
fn default_instructions_are_listed() {
    let config = PromptAdapter::default_config();
    assert!(config.deepseek_reasoning && config.qwen_json_format && config.openai_functions);
    assert_eq!(
        config.custom_instructions.get("qwen"),
        Some(&"Provide your response in valid JSON format.".to_string())
    );
    assert_eq!(config.custom_instructions.len(), 3);
}

struct ShoutingAdapter;

impl ProviderAdapter for ShoutingAdapter {
    fn adapt_messages(&self, messages: Vec<Message>) -> Vec<Message> {
        messages.into_iter().map(|m| Message { role: m.role.to_uppercase(), content: m.content }).collect()
    }

    fn provider_name(&self) -> &'static str {
        "shouting"
    }
}

#[test]
fn users_can_register_adapters_of_their_own() {
    let mut adapter = PromptAdapter::new();
    adapter.add_adapter("loud".to_string(), Box::new(ShoutingAdapter));
    let adapted = adapter.adapt_prompt("loud", system_messages());
    assert_eq!(adapted[0].role, "SYSTEM");
    assert_eq!(adapted[0].content, system_messages()[0].content);
    adapter.add_adapter("qwen".to_string(), Box::new(ShoutingAdapter));
    assert_eq!(adapter.adapt_prompt("qwen", system_messages())[0].role, "SYSTEM");
    assert_eq!(adapter.supported_providers().len(), 4);
}
