//! The runtime configuration the kernel reads. Loading and persisting the
//! file is the surrounding program's work; the kernel works on these plain
//! values.

use vstd::prelude::*;

verus! {

#[derive(Clone, Debug)]
pub struct TelegramConfig {
    pub bot_token: String,
    pub allowed_users: Vec<String>,
}

#[derive(Clone, Debug)]
pub struct DiscordConfig {
    pub bot_token: String,
    pub allowed_users: Vec<String>,
}

#[derive(Clone, Debug)]
pub struct SlackConfig {
    pub bot_token: String,
    pub app_token: String,
}

#[derive(Clone, Debug)]
pub struct WebhookConfig {
    pub secret: String,
}

#[derive(Clone, Debug)]
pub struct IMessageConfig {
    pub allowed_contacts: Vec<String>,
}

#[derive(Clone, Debug)]
pub struct MatrixConfig {
    pub homeserver: String,
    pub access_token: String,
    pub room_id: String,
    pub allowed_users: Vec<String>,
}

#[derive(Clone, Debug)]
pub struct ChannelsConfig {
    pub telegram: Option<TelegramConfig>,
    pub discord: Option<DiscordConfig>,
    pub slack: Option<SlackConfig>,
    pub webhook: Option<WebhookConfig>,
    pub imessage: Option<IMessageConfig>,
    pub matrix: Option<MatrixConfig>,
}

#[derive(Clone, Debug)]
pub struct AutonomyConfig {
    pub level: String,
    pub max_tool_iterations: usize,
    pub max_history_turns: usize,
    pub max_actions_per_hour: u64,
    pub max_cost_per_day_cents: u64,
    pub workspace_only: bool,
    pub allowed_commands: Vec<String>,
}

#[derive(Clone, Debug)]
pub struct ReliabilityConfig {
    pub channel_initial_backoff_secs: u64,
    pub channel_max_backoff_secs: u64,
    pub provider_max_retries: u32,
    pub provider_retry_base_ms: u64,
}

#[derive(Clone, Debug)]
pub struct MemoryConfig {
    pub backend: String,
    pub auto_save: bool,
}

#[derive(Clone, Debug)]
pub struct HeartbeatConfig {
    pub enabled: bool,
    pub interval_minutes: u32,
}

#[derive(Clone, Debug)]
pub struct RuntimeConfig {
    pub kind: String,
}

#[derive(Clone, Debug)]
pub struct BrowserConfig {
    pub enabled: bool,
}

#[derive(Clone, Debug)]
pub struct BraveSearchConfig {
    pub enabled: bool,
    pub api_key: Option<String>,
    pub result_count: u8,
}

#[derive(Clone, Debug)]
pub struct ComposioConfig {
    pub enabled: bool,
    pub api_key: Option<String>,
}

#[derive(Clone, Debug)]
pub struct ObservabilityConfig {
    pub backend: String,
}

/// The whole configuration.
#[derive(Clone, Debug)]
pub struct Config {
    pub workspace_dir: String,
    pub config_path: String,
    pub api_key: Option<String>,
    pub default_provider: Option<String>,
    pub default_model: Option<String>,
    pub autonomy: AutonomyConfig,
    pub reliability: ReliabilityConfig,
    pub memory: MemoryConfig,
    pub heartbeat: HeartbeatConfig,
    pub runtime: RuntimeConfig,
    pub browser: BrowserConfig,
    pub brave_search: BraveSearchConfig,
    pub composio: ComposioConfig,
    pub observability: ObservabilityConfig,
    pub channels_config: ChannelsConfig,
}

impl Default for ChannelsConfig {
    /// No channel is configured.
    fn default() -> (r: ChannelsConfig)
        ensures
            r.telegram is None,
            r.discord is None,
            r.slack is None,
            r.webhook is None,
            r.imessage is None,
            r.matrix is None,
    {
        ChannelsConfig {
            telegram: None,
            discord: None,
            slack: None,
            webhook: None,
            imessage: None,
            matrix: None,
        }
    }
}

impl Default for AutonomyConfig {
    /// Supervised autonomy with modest budgets, confined to the workspace.
    fn default() -> (r: AutonomyConfig)
        ensures
            r.max_tool_iterations == 10,
            r.max_history_turns == 20,
            r.max_actions_per_hour == 60,
            r.workspace_only,
            r.allowed_commands@.len() == 0,
    {
        AutonomyConfig {
            level: "supervised".to_owned(),
            max_tool_iterations: 10,
            max_history_turns: 20,
            max_actions_per_hour: 60,
            max_cost_per_day_cents: 500,
            workspace_only: true,
            allowed_commands: Vec::new(),
        }
    }
}

impl Default for ReliabilityConfig {
    fn default() -> (r: ReliabilityConfig)
        ensures
            r.channel_initial_backoff_secs == 2,
            r.channel_max_backoff_secs == 60,
            r.provider_max_retries == 3,
            r.provider_retry_base_ms == 500,
    {
        ReliabilityConfig {
            channel_initial_backoff_secs: 2,
            channel_max_backoff_secs: 60,
            provider_max_retries: 3,
            provider_retry_base_ms: 500,
        }
    }
}

impl Default for MemoryConfig {
    fn default() -> (r: MemoryConfig)
        ensures
            r.backend@ == "sqlite"@,
            !r.auto_save,
    {
        MemoryConfig { backend: "sqlite".to_owned(), auto_save: false }
    }
}

impl Default for HeartbeatConfig {
    fn default() -> (r: HeartbeatConfig)
        ensures
            !r.enabled,
            r.interval_minutes == 30,
    {
        HeartbeatConfig { enabled: false, interval_minutes: 30 }
    }
}

impl Default for RuntimeConfig {
    fn default() -> (r: RuntimeConfig)
        ensures
            r.kind@ == "native"@,
    {
        RuntimeConfig { kind: "native".to_owned() }
    }
}

impl Default for BrowserConfig {
    fn default() -> (r: BrowserConfig)
        ensures
            !r.enabled,
    {
        BrowserConfig { enabled: false }
    }
}

impl Default for BraveSearchConfig {
    fn default() -> (r: BraveSearchConfig)
        ensures
            !r.enabled,
            r.api_key is None,
            r.result_count == 5,
    {
        BraveSearchConfig { enabled: false, api_key: None, result_count: 5 }
    }
}

impl Default for ComposioConfig {
    fn default() -> (r: ComposioConfig)
        ensures
            !r.enabled,
            r.api_key is None,
    {
        ComposioConfig { enabled: false, api_key: None }
    }
}

impl Default for ObservabilityConfig {
    fn default() -> (r: ObservabilityConfig)
        ensures
            r.backend@ == "log"@,
    {
        ObservabilityConfig { backend: "log".to_owned() }
    }
}

impl Default for Config {
    /// The defaults: no provider credentials, no channels, supervised
    /// autonomy, native runtime.
    fn default() -> (r: Config)
        ensures
            r.workspace_dir@.len() == 0,
            r.config_path@.len() == 0,
            r.api_key is None,
            r.default_provider is None,
            r.default_model is None,
            r.channels_config.telegram is None,
            r.channels_config.discord is None,
            r.channels_config.slack is None,
            r.channels_config.webhook is None,
            r.channels_config.imessage is None,
            r.channels_config.matrix is None,
            r.runtime.kind@ == "native"@,
    {
        Config {
            workspace_dir: String::new(),
            config_path: String::new(),
            api_key: None,
            default_provider: None,
            default_model: None,
            autonomy: AutonomyConfig::default(),
            reliability: ReliabilityConfig::default(),
            memory: MemoryConfig::default(),
            heartbeat: HeartbeatConfig::default(),
            runtime: RuntimeConfig::default(),
            browser: BrowserConfig::default(),
            brave_search: BraveSearchConfig::default(),
            composio: ComposioConfig::default(),
            observability: ObservabilityConfig::default(),
            channels_config: ChannelsConfig::default(),
        }
    }
}

/// The user-provided personalization baked into workspace files during
/// onboarding.
#[derive(Clone, Debug)]
pub struct ProjectContext {
    pub user_name: String,
    pub timezone: String,
    pub agent_name: String,
    pub communication_style: String,
}

impl Default for ProjectContext {
    /// Everything starts blank.
    fn default() -> (r: ProjectContext)
        ensures
            r.user_name@.len() == 0,
            r.timezone@.len() == 0,
            r.agent_name@.len() == 0,
            r.communication_style@.len() == 0,
    {
        ProjectContext {
            user_name: String::new(),
            timezone: String::new(),
            agent_name: String::new(),
            communication_style: String::new(),
        }
    }
}

} // verus!
