use claude_router::config::{
    Config, OpenRouterConfig, RoleConfig, RoutingConfig, RoutingRule, ServerConfig, TelemetryConfig,
};
use claude_router::messages::text_block;
use claude_router::provider_types::{CompletionRequest, Message};
use claude_router::router::ModelRouter;
use claude_router::rules_engine::RulesEngine;
use claude_router::string_map::StringMap;

fn sample_config() -> Config {
    let mut roles = StringMap::new();
    roles.insert(
        "planner".to_string(),
        RoleConfig { model: "deepseek/deepseek-r1".to_string(), description: None },
    );
    roles.insert(
        "coder".to_string(),
        RoleConfig { model: "openai/gpt-4o".to_string(), description: Some("code".to_string()) },
    );
    roles.insert(
        "general".to_string(),
        RoleConfig { model: "qwen/qwen-2.5-72b".to_string(), description: None },
    );
    Config {
        server: ServerConfig { host: "127.0.0.1".to_string(), port: 8080 },
        openrouter: OpenRouterConfig {
            api_key: "file-key".to_string(),
            base_url: "https://openrouter.ai/api/v1".to_string(),
        },
        roles,
        routing: RoutingConfig {
            rules: vec![
                RoutingRule {
                    pattern: "(?i)(architect|design)".to_string(),
                    role: "planner".to_string(),
                    description: None,
                },
                RoutingRule {
                    pattern: "(unclosed".to_string(),
                    role: "broken".to_string(),
                    description: None,
                },
                RoutingRule {
                    pattern: "(?i)code|function".to_string(),
                    role: "coder".to_string(),
                    description: None,
                },
                RoutingRule {
                    pattern: "ghost".to_string(),
                    role: "unknown-role".to_string(),
                    description: None,
                },
            ],
        },
        default_role: "general".to_string(),
        telemetry: TelemetryConfig {
            enabled: true,
            metrics_file: "metrics.json".to_string(),
            log_level: "info".to_string(),
        },
    }
}

fn request(system: &str, user: &str) -> CompletionRequest {
    CompletionRequest {
        model: "sonnet-latest".to_string(),
        messages: vec![
            Message { role: "system".to_string(), content: vec![text_block(system.to_string())] },
            Message { role: "user".to_string(), content: vec![text_block(user.to_string())] },
        ],
        temperature_bits: None,
        max_tokens: Some(256),
        stream: None,
        tools: None,
        tool_choice: None,
    }
}

#[test]
fn test_config_loading() {
    // Reading a configuration file is the application's part; see the
    // tests below for what the library does with a configuration.
}

#[test]
fn test_router_creation() {
    // Construction with a configuration is covered by the tests below.
}

#[test]
fn test_role_selection() {
    // Role selection on a configuration is covered by the tests below.
}

#[test]
fn config_lookups() {
    let config = sample_config();
    assert_eq!(config.get_model_for_role("coder"), Some("openai/gpt-4o".to_string()));
    assert_eq!(config.get_model_for_role("nobody"), None);
    assert_eq!(config.get_default_role(), "general");
    assert_eq!(config.get_routing_rules().len(), 4);
    assert_eq!(Config::config_path(true), "config/config.yaml");
    assert_eq!(Config::config_path(false), "config/default.yaml");
}

#[test]
fn environment_key_wins() {
    let mut config = sample_config();
    config.apply_api_key_override(Some("env-key".to_string()));
    assert_eq!(config.openrouter.api_key, "env-key");
    let mut config = sample_config();
    config.apply_api_key_override(None);
    assert_eq!(config.openrouter.api_key, "file-key");
}

#[test]
fn first_matching_rule_picks_the_role() {
    let engine = RulesEngine::new(sample_config());
    assert_eq!(engine.select_role("I need to design an architecture"), "planner");
    assert_eq!(engine.select_role("write a function please"), "coder");
    assert_eq!(engine.select_role("Design some code"), "planner");
    assert_eq!(engine.select_role("hello there"), "general");
    let mut roles = engine.get_roles();
    roles.sort();
    assert_eq!(roles, vec!["coder".to_string(), "general".to_string(), "planner".to_string()]);
}

#[test]
fn router_selects_role_from_all_text() {
    let router: ModelRouter<u32> = ModelRouter::new(sample_config());
    let req = request("You are terse.", "please DESIGN it");
    assert_eq!(router.select_role(&req), "planner");
    let req = request("Write code.", "hi");
    assert_eq!(router.select_role(&req), "coder");
    let req = request("hello", "world");
    assert_eq!(router.select_role(&req), "general");
}

#[test]
fn routed_request_resolves_model_and_adapts_prompt() {
    let router: ModelRouter<u32> = ModelRouter::new(sample_config());
    let routed = router.routed_request(request("You are terse.", "design a system"));
    assert_eq!(routed.model, "deepseek/deepseek-r1");
    assert_eq!(
        routed.messages[0].content[0].text,
        Some(
            "You are terse.\n\nPlease think through this step by step and explain your reasoning."
                .to_string()
        )
    );
    assert_eq!(routed.messages[1], request("You are terse.", "design a system").messages[1]);
    assert_eq!(routed.stream, None);
    assert_eq!(routed.max_tokens, Some(256));

    let routed = router.routed_stream_request(request("Be brief.", "write code"));
    assert_eq!(routed.model, "openai/gpt-4o");
    assert_eq!(routed.stream, Some(true));
    assert_eq!(
        routed.messages[0].content[0].text,
        Some("Be brief.\n\nFeel free to use functions when appropriate to complete the task.".to_string())
    );
}

#[test]
fn unknown_role_falls_back_to_default_roles_model() {
    let router: ModelRouter<u32> = ModelRouter::new(sample_config());
    let routed = router.routed_request(request("sys", "a ghost story"));
    assert_eq!(routed.model, "qwen/qwen-2.5-72b");
    assert_eq!(
        routed.messages[0].content[0].text,
        Some("sys\n\nProvide your response in valid JSON format.".to_string())
    );
}

#[test]
fn default_role_without_model_routes_to_its_name() {
    let mut config = sample_config();
    config.default_role = "nameless".to_string();
    let router: ModelRouter<u32> = ModelRouter::new(config);
    let routed = router.routed_request(request("sys", "nothing matches"));
    assert_eq!(routed.model, "nameless");
    assert_eq!(routed.messages[0].content[0].text, Some("sys".to_string()));
}

#[test]
fn model_family_reads_lowercased_slug() {
    assert_eq!(ModelRouter::<u32>::provider_family_for_model("DeepSeek/DeepSeek-R1"), "deepseek");
    assert_eq!(ModelRouter::<u32>::provider_family_for_model("Qwen/QwQ"), "qwen");
    assert_eq!(ModelRouter::<u32>::provider_family_for_model("OpenAI/o3"), "openai");
    assert_eq!(ModelRouter::<u32>::provider_family_for_model("x/GPT-4o"), "openai");
    assert_eq!(ModelRouter::<u32>::provider_family_for_model("mistral/mixtral"), "unknown");
    assert_eq!(ModelRouter::<u32>::provider_family_for_model(""), "unknown");
}

#[test]
fn routing_provider_is_the_openrouter_one() {
    let mut router: ModelRouter<u32> = ModelRouter::new(sample_config());
    assert_eq!(router.routing_provider(), None);
    router.add_provider("other", 7);
    assert_eq!(router.routing_provider(), None);
    router.add_provider("openrouter", 9);
    assert_eq!(router.routing_provider(), Some(&9));
    router.add_provider("openrouter", 11);
    assert_eq!(router.routing_provider(), Some(&11));
    assert_eq!(router.get_model_for_role("planner"), Some("deepseek/deepseek-r1".to_string()));
    assert_eq!(router.get_roles().len(), 3);
}
