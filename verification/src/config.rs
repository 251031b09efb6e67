//! Configuration: server, OpenRouter credentials, roles and the rules that
//! pick them, telemetry.
use vstd::prelude::*;
use vstd::string::*;
use crate::string_map::{StringMap, lookup};

verus! {

/// Server configuration
#[derive(Debug, Clone, PartialEq)]
pub struct ServerConfig {
    pub host: String,
    pub port: u16,
}

/// OpenRouter configuration
#[derive(Debug, Clone, PartialEq)]
pub struct OpenRouterConfig {
    pub api_key: String,
    pub base_url: String,
}

/// Role configuration
#[derive(Debug, Clone, PartialEq)]
pub struct RoleConfig {
    pub model: String,
    pub description: Option<String>,
}

/// Routing rule configuration
#[derive(Debug, Clone, PartialEq)]
pub struct RoutingRule {
    pub pattern: String,
    pub role: String,
    pub description: Option<String>,
}

/// Telemetry configuration
#[derive(Debug, Clone, PartialEq)]
pub struct TelemetryConfig {
    pub enabled: bool,
    pub metrics_file: String,
    pub log_level: String,
}

/// Routing configuration
#[derive(Debug, Clone, PartialEq)]
pub struct RoutingConfig {
    pub rules: Vec<RoutingRule>,
}

/// Main configuration structure
#[derive(Debug, Clone, PartialEq)]
pub struct Config {
    pub server: ServerConfig,
    pub openrouter: OpenRouterConfig,
    pub roles: StringMap<RoleConfig>,
    pub routing: RoutingConfig,
    pub default_role: String,
    pub telemetry: TelemetryConfig,
}

/// The model configured for a role.
pub open spec fn model_for_role(config: Config, role: Seq<char>) -> Option<Seq<char>> {
    match lookup(config.roles.spec_entries(), role) {
        Some(rc) => Some(rc.model@),
        None => None,
    }
}

/// The configuration file to read: the local one when it exists, else the
/// tracked template.
pub open spec fn config_path_for(local_exists: bool) -> Seq<char> {
    if local_exists {
        "config/config.yaml"@
    } else {
        "config/default.yaml"@
    }
}

impl Config {
    /// The configuration file to load, preferring a local
    /// `config/config.yaml` over the tracked `config/default.yaml`.
    pub fn config_path(local_exists: bool) -> (r: &'static str)
        ensures
            r@ == config_path_for(local_exists),
    {
        if local_exists {
            "config/config.yaml"
        } else {
            "config/default.yaml"
        }
    }

    /// An API key from the environment always wins over whatever is in
    /// the file, so a real key never has to live in a tracked file.
    pub fn apply_api_key_override(&mut self, env_key: Option<String>)
        ensures
            final(self).openrouter.api_key@ == match env_key {
                Some(k) => k@,
                None => old(self).openrouter.api_key@,
            },
            final(self).openrouter.base_url == old(self).openrouter.base_url,
            final(self).server == old(self).server,
            final(self).roles == old(self).roles,
            final(self).routing == old(self).routing,
            final(self).default_role == old(self).default_role,
            final(self).telemetry == old(self).telemetry,
    {
        if let Some(key) = env_key {
            self.openrouter.api_key = key;
        }
    }

    /// Get the model name for a given role
    pub fn get_model_for_role(&self, role: &str) -> (r: Option<String>)
        ensures
            r.deep_view() == model_for_role(*self, role@),
    {
        match self.roles.get(role) {
            Some(rc) => Some(rc.model.clone()),
            None => None,
        }
    }

    /// Get the default role
    pub fn get_default_role(&self) -> (r: String)
        ensures
            r@ == self.default_role@,
    {
        self.default_role.clone()
    }

    /// Get routing rules
    pub fn get_routing_rules(&self) -> (r: &Vec<RoutingRule>)
        ensures
            *r == self.routing.rules,
    {
        &self.routing.rules
    }
}

} // verus!
