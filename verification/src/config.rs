//! The application configuration model, its defaults, and where it is read from.
use vstd::prelude::*;
use crate::error::Error;
use crate::json::JsonValue;
use crate::prompt::{path_join, join_path, config_dir_for, home_dir};
use crate::text::{owned, push_str};

verus! {

broadcast use vstd::string::group_string_axioms;

/// Default gateway address.
pub fn default_host() -> (r: String)
    ensures
        r@ == "127.0.0.1"@,
{
    owned("127.0.0.1")
}

/// Default gateway port.
pub fn default_port() -> (r: u16)
    ensures
        r == 3888,
{
    3888
}

/// Default rate of requests refilled per second.
pub fn default_rate_per_second() -> (r: u64)
    ensures
        r == 1,
{
    1
}

/// Default burst of requests.
pub fn default_rate_burst_size() -> (r: u32)
    ensures
        r == 60,
{
    60
}

/// Memory is on by default.
pub fn default_memory_enabled() -> (r: bool)
    ensures
        r,
{
    true
}

/// Default MCP transport.
pub fn default_transport() -> (r: String)
    ensures
        r@ == "stdio"@,
{
    owned("stdio")
}

/// Request rate limiting of the gateway.
#[derive(Debug, Clone, PartialEq, Eq)]
pub struct RateLimitConfig {
    pub per_second: u64,
    pub burst_size: u32,
}

impl Default for RateLimitConfig {
    /// One request per second with bursts of 60.
    fn default() -> (r: Self)
        ensures
            r.per_second == 1,
            r.burst_size == 60,
    {
        RateLimitConfig { per_second: default_rate_per_second(), burst_size: default_rate_burst_size() }
    }
}

/// The gateway server's settings.
#[derive(Debug, Clone, PartialEq, Eq)]
pub struct GatewayConfig {
    pub host: String,
    pub port: u16,
    pub api_key: Option<String>,
    pub rate_limit: RateLimitConfig,
}

impl Default for GatewayConfig {
    /// `127.0.0.1:3888`, no API key, default rate limits.
    fn default() -> (r: Self)
        ensures
            r.host@ == "127.0.0.1"@,
            r.port == 3888,
            r.api_key is None,
            r.rate_limit.per_second == 1,
            r.rate_limit.burst_size == 60,
    {
        GatewayConfig { host: default_host(), port: default_port(), api_key: None, rate_limit: RateLimitConfig::default() }
    }
}

/// A channel's type, whether it is enabled, and its other settings.
#[derive(Debug)]
pub struct ChannelConfig {
    pub channel_type: String,
    pub enabled: Option<bool>,
    pub settings: Vec<(String, JsonValue)>,
}

impl ChannelConfig {
    /// Whether the channel is enabled: unless it says otherwise, it is.
    pub fn is_enabled(&self) -> (r: bool)
        ensures
            r == (self.enabled != Some(false)),
    {
        match self.enabled {
            Some(b) => b,
            None => true,
        }
    }
}

/// An LLM provider's settings.
#[derive(Debug)]
pub struct LlmProviderConfig {
    pub provider: String,
    pub model: Option<String>,
    pub api_key: Option<String>,
    pub base_url: Option<String>,
    pub extra: Vec<(String, JsonValue)>,
}

/// An embedding provider's settings.
#[derive(Debug)]
pub struct EmbeddingProviderConfig {
    pub provider: String,
    pub model: Option<String>,
    pub api_key: Option<String>,
    pub base_url: Option<String>,
    pub dimensions: Option<usize>,
    pub extra: Vec<(String, JsonValue)>,
}

/// Memory settings.
#[derive(Debug, Clone, PartialEq, Eq)]
pub struct MemoryConfig {
    pub enabled: bool,
    pub embedding_provider: Option<String>,
    pub shared_continuity: bool,
    pub recall_limit: Option<usize>,
    pub summarization: Option<bool>,
}

impl Default for MemoryConfig {
    /// Memory on, no embedding provider, continuity not shared, defaults for the rest.
    fn default() -> (r: Self)
        ensures
            r.enabled,
            r.embedding_provider is None,
            !r.shared_continuity,
            r.recall_limit is None,
            r.summarization is None,
    {
        MemoryConfig {
            enabled: default_memory_enabled(),
            embedding_provider: None,
            shared_continuity: false,
            recall_limit: None,
            summarization: None,
        }
    }
}

/// The default agent's settings.
#[derive(Debug, Clone, PartialEq, Eq)]
pub struct AgentConfig {
    pub system_prompt: Option<String>,
    pub default_provider: Option<String>,
    pub max_tokens: Option<u32>,
    pub max_context_tokens: Option<usize>,
}

impl Default for AgentConfig {
    /// Nothing set.
    fn default() -> (r: Self)
        ensures
            r.system_prompt is None,
            r.default_provider is None,
            r.max_tokens is None,
            r.max_context_tokens is None,
    {
        AgentConfig { system_prompt: None, default_provider: None, max_tokens: None, max_context_tokens: None }
    }
}

/// A named agent for multi-agent routing; an empty tool list allows every tool.
#[derive(Debug, Clone, PartialEq, Eq)]
pub struct NamedAgentConfig {
    pub provider: Option<String>,
    pub model: Option<String>,
    pub system_prompt: Option<String>,
    pub max_tokens: Option<u32>,
    pub max_context_tokens: Option<usize>,
    pub tools: Vec<String>,
}

/// An MCP server to connect to.
#[derive(Debug, Clone, PartialEq, Eq)]
pub struct McpServerConfig {
    pub command: String,
    pub args: Vec<String>,
    pub env: Vec<(String, String)>,
    pub transport: String,
    pub url: Option<String>,
    pub enabled: Option<bool>,
    pub timeout: Option<u64>,
}

impl McpServerConfig {
    /// Whether the server is enabled: unless it says otherwise, it is.
    pub fn is_enabled(&self) -> (r: bool)
        ensures
            r == (self.enabled != Some(false)),
    {
        match self.enabled {
            Some(b) => b,
            None => true,
        }
    }

    /// The connection timeout in seconds: 30 unless set.
    pub fn timeout_secs(&self) -> (r: u64)
        ensures
            r == match self.timeout {
                Some(t) => t,
                None => 30,
            },
    {
        match self.timeout {
            Some(t) => t,
            None => 30,
        }
    }
}

/// The whole configuration. Keyed sections keep their entries in order.
#[derive(Debug)]
pub struct AppConfig {
    pub gateway: GatewayConfig,
    pub channels: Vec<(String, ChannelConfig)>,
    pub llm: Vec<(String, LlmProviderConfig)>,
    pub embeddings: Vec<(String, EmbeddingProviderConfig)>,
    pub memory: MemoryConfig,
    pub agent: AgentConfig,
    pub data_dir: Option<String>,
    pub log_level: Option<String>,
    pub mcp: Vec<(String, McpServerConfig)>,
    pub agents: Vec<(String, NamedAgentConfig)>,
}

impl Default for AppConfig {
    /// Default gateway, memory and agent; nothing configured; log level `info`.
    fn default() -> (r: Self)
        ensures
            r.gateway.host@ == "127.0.0.1"@,
            r.gateway.port == 3888,
            r.channels@.len() == 0,
            r.llm@.len() == 0,
            r.embeddings@.len() == 0,
            r.memory.enabled,
            !r.memory.shared_continuity,
            r.agent.system_prompt is None,
            r.data_dir is None,
            r.log_level matches Some(l) && l@ == "info"@,
            r.mcp@.len() == 0,
            r.agents@.len() == 0,
    {
        AppConfig {
            gateway: GatewayConfig::default(),
            channels: Vec::new(),
            llm: Vec::new(),
            embeddings: Vec::new(),
            memory: MemoryConfig::default(),
            agent: AgentConfig::default(),
            data_dir: None,
            log_level: Some(owned("info")),
            mcp: Vec::new(),
            agents: Vec::new(),
        }
    }
}

/// Where the configuration lives.
#[derive(Debug, Clone, PartialEq, Eq)]
pub struct ConfigLoader {
    pub config_dir: String,
}

/// Which configuration file is read: YAML before TOML; defaults without either.
#[derive(Debug, Clone, Copy, PartialEq, Eq, Structural)]
pub enum ConfigSource {
    Yaml,
    Toml,
    Defaults,
}

/// The subdirectories made under the configuration directory.
pub open spec fn config_subdirs() -> Seq<Seq<char>> {
    seq!["sessions"@, "credentials"@, "plugins"@, "data"@]
}

impl ConfigLoader {
    /// The loader for `~/.opencrust`; an error when the home directory is unknown.
    pub fn new() -> (r: Result<Self, Error>)
        ensures
            match r {
                Ok(l) => exists|h: Seq<char>| l.config_dir@ == path_join(h, ".opencrust"@),
                Err(e) => e matches Error::Config(m) && m@ == "could not determine home directory"@,
            },
    {
        match home_dir() {
            Some(h) => Ok(ConfigLoader { config_dir: join_path(h.as_str(), ".opencrust") }),
            None => Err(Error::Config(owned("could not determine home directory"))),
        }
    }

    /// The loader for a given directory.
    pub fn with_dir(config_dir: String) -> (r: Self)
        ensures
            r.config_dir == config_dir,
    {
        ConfigLoader { config_dir }
    }

    /// The configuration directory.
    pub fn config_dir(&self) -> (r: &str)
        ensures
            r@ == self.config_dir@,
    {
        self.config_dir.as_str()
    }

    /// The YAML configuration file.
    pub fn yaml_path(&self) -> (r: String)
        ensures
            r@ == path_join(self.config_dir@, "config.yml"@),
    {
        join_path(self.config_dir.as_str(), "config.yml")
    }

    /// The TOML configuration file.
    pub fn toml_path(&self) -> (r: String)
        ensures
            r@ == path_join(self.config_dir@, "config.toml"@),
    {
        join_path(self.config_dir.as_str(), "config.toml")
    }

    /// Which file to read, given which exist: the YAML one first.
    pub fn source(&self, yaml_exists: bool, toml_exists: bool) -> (r: ConfigSource)
        ensures
            r == (if yaml_exists {
                ConfigSource::Yaml
            } else if toml_exists {
                ConfigSource::Toml
            } else {
                ConfigSource::Defaults
            }),
    {
        if yaml_exists {
            ConfigSource::Yaml
        } else if toml_exists {
            ConfigSource::Toml
        } else {
            ConfigSource::Defaults
        }
    }

    /// The error for a configuration file that does not parse.
    pub fn parse_error(&self, source: ConfigSource, reason: &str) -> (r: Error)
        ensures
            r matches Error::Config(m) && m@ == (if source == ConfigSource::Toml {
                "failed to parse TOML config: "@
            } else {
                "failed to parse YAML config: "@
            }) + reason@,
    {
        let mut m = if source == ConfigSource::Toml {
            owned("failed to parse TOML config: ")
        } else {
            owned("failed to parse YAML config: ")
        };
        push_str(&mut m, reason);
        Error::Config(m)
    }

    /// The directories that must exist: the configuration directory and its
    /// `sessions`, `credentials`, `plugins` and `data` subdirectories.
    pub fn required_dirs(&self) -> (r: Vec<String>)
        ensures
            r@.len() == 5,
            r@[0]@ == self.config_dir@,
            forall|i: int| 0 <= i < 4 ==> (#[trigger] r@[i + 1])@ == path_join(self.config_dir@, config_subdirs()[i]),
    {
        let mut r: Vec<String> = Vec::new();
        r.push(self.config_dir.clone());
        r.push(join_path(self.config_dir.as_str(), "sessions"));
        r.push(join_path(self.config_dir.as_str(), "credentials"));
        r.push(join_path(self.config_dir.as_str(), "plugins"));
        r.push(join_path(self.config_dir.as_str(), "data"));
        r
    }
}

} // verus!
