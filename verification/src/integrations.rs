//! The integrations catalogue: every integration the runtime knows of,
//! with its category and the rule deciding whether it is active for a
//! given configuration.

use vstd::prelude::*;

use crate::config::Config;
use crate::strings::{starts_with_seq, str_eq, str_starts_with};

verus! {

/// Integration status.
#[derive(Debug, Clone, Copy, PartialEq, Eq, Structural)]
pub enum IntegrationStatus {
    /// Fully implemented and ready to use.
    Available,
    /// Configured and active.
    Active,
    /// Planned but not yet implemented.
    ComingSoon,
}

/// Integration category.
#[derive(Debug, Clone, Copy, PartialEq, Eq, Structural)]
pub enum IntegrationCategory {
    Chat,
    AiModel,
    Productivity,
    MusicAudio,
    SmartHome,
    ToolsAutomation,
    MediaCreative,
    Social,
    Platform,
}

impl IntegrationCategory {
    /// The display label of the category.
    pub fn label(self) -> (r: &'static str)
        ensures
            r@ == match self {
                IntegrationCategory::Chat => "聊天通道"@,
                IntegrationCategory::AiModel => "AI 模型"@,
                IntegrationCategory::Productivity => "生产力工具"@,
                IntegrationCategory::MusicAudio => "音乐与音频"@,
                IntegrationCategory::SmartHome => "智能家居"@,
                IntegrationCategory::ToolsAutomation => "工具与自动化"@,
                IntegrationCategory::MediaCreative => "媒体与创意"@,
                IntegrationCategory::Social => "社交"@,
                IntegrationCategory::Platform => "平台"@,
            },
    {
        match self {
            IntegrationCategory::Chat => "聊天通道",
            IntegrationCategory::AiModel => "AI 模型",
            IntegrationCategory::Productivity => "生产力工具",
            IntegrationCategory::MusicAudio => "音乐与音频",
            IntegrationCategory::SmartHome => "智能家居",
            IntegrationCategory::ToolsAutomation => "工具与自动化",
            IntegrationCategory::MediaCreative => "媒体与创意",
            IntegrationCategory::Social => "社交",
            IntegrationCategory::Platform => "平台",
        }
    }

    /// Every category, in display order.
    pub fn all() -> (r: Vec<IntegrationCategory>)
        ensures
            r@ == seq![
                IntegrationCategory::Chat,
                IntegrationCategory::AiModel,
                IntegrationCategory::Productivity,
                IntegrationCategory::MusicAudio,
                IntegrationCategory::SmartHome,
                IntegrationCategory::ToolsAutomation,
                IntegrationCategory::MediaCreative,
                IntegrationCategory::Social,
                IntegrationCategory::Platform,
            ],
    {
        let mut v: Vec<IntegrationCategory> = Vec::new();
        v.push(IntegrationCategory::Chat);
        v.push(IntegrationCategory::AiModel);
        v.push(IntegrationCategory::Productivity);
        v.push(IntegrationCategory::MusicAudio);
        v.push(IntegrationCategory::SmartHome);
        v.push(IntegrationCategory::ToolsAutomation);
        v.push(IntegrationCategory::MediaCreative);
        v.push(IntegrationCategory::Social);
        v.push(IntegrationCategory::Platform);
        proof {
            assert(v@ =~= seq![
                IntegrationCategory::Chat,
                IntegrationCategory::AiModel,
                IntegrationCategory::Productivity,
                IntegrationCategory::MusicAudio,
                IntegrationCategory::SmartHome,
                IntegrationCategory::ToolsAutomation,
                IntegrationCategory::MediaCreative,
                IntegrationCategory::Social,
                IntegrationCategory::Platform,
            ]);
        }
        v
    }
}

/// How an integration's status is decided from the configuration.
#[derive(Debug, Clone)]
pub enum StatusRule {
    /// Planned, never active.
    ComingSoon,
    /// Built in and always on.
    AlwaysActive,
    /// Built in, available without configuration.
    AlwaysAvailable,
    /// Active when the matching channel is configured.
    TelegramConfigured,
    DiscordConfigured,
    SlackConfigured,
    WebhookConfigured,
    IMessageConfigured,
    MatrixConfigured,
    /// Active when this provider is the default.
    ProviderIs(String),
    /// Active when this provider is the default and an API key is set.
    ProviderWithKey(String),
    /// Active when the default model starts with this prefix.
    ModelPrefix(String),
    /// Active on this operating system.
    OsIs(String),
}

/// The status a rule yields for a configuration on an operating system.
pub open spec fn rule_status(rule: StatusRule, c: Config, os: Seq<char>) -> IntegrationStatus {
    match rule {
        StatusRule::ComingSoon => IntegrationStatus::ComingSoon,
        StatusRule::AlwaysActive => IntegrationStatus::Active,
        StatusRule::AlwaysAvailable => IntegrationStatus::Available,
        StatusRule::TelegramConfigured => if c.channels_config.telegram is Some {
            IntegrationStatus::Active
        } else {
            IntegrationStatus::Available
        },
        StatusRule::DiscordConfigured => if c.channels_config.discord is Some {
            IntegrationStatus::Active
        } else {
            IntegrationStatus::Available
        },
        StatusRule::SlackConfigured => if c.channels_config.slack is Some {
            IntegrationStatus::Active
        } else {
            IntegrationStatus::Available
        },
        StatusRule::WebhookConfigured => if c.channels_config.webhook is Some {
            IntegrationStatus::Active
        } else {
            IntegrationStatus::Available
        },
        StatusRule::IMessageConfigured => if c.channels_config.imessage is Some {
            IntegrationStatus::Active
        } else {
            IntegrationStatus::Available
        },
        StatusRule::MatrixConfigured => if c.channels_config.matrix is Some {
            IntegrationStatus::Active
        } else {
            IntegrationStatus::Available
        },
        StatusRule::ProviderIs(p) => if match c.default_provider {
            Some(dp) => dp@ == p@,
            None => false,
        } {
            IntegrationStatus::Active
        } else {
            IntegrationStatus::Available
        },
        StatusRule::ProviderWithKey(p) => if (match c.default_provider {
            Some(dp) => dp@ == p@,
            None => false,
        }) && c.api_key is Some {
            IntegrationStatus::Active
        } else {
            IntegrationStatus::Available
        },
        StatusRule::ModelPrefix(pre) => if match c.default_model {
            Some(m) => starts_with_seq(m@, pre@),
            None => false,
        } {
            IntegrationStatus::Active
        } else {
            IntegrationStatus::Available
        },
        StatusRule::OsIs(o) => if os == o@ {
            IntegrationStatus::Active
        } else {
            IntegrationStatus::Available
        },
    }
}

/// A registered integration.
#[derive(Debug, Clone)]
pub struct IntegrationEntry {
    pub name: String,
    pub description: String,
    pub category: IntegrationCategory,
    pub rule: StatusRule,
}

impl IntegrationEntry {
    /// The integration's status for this configuration, on the operating
    /// system named `os` (`"macos"`, `"linux"`, ...).
    pub fn status(&self, config: &Config, os: &str) -> (r: IntegrationStatus)
        ensures
            r == rule_status(self.rule, *config, os@),
    {
        match &self.rule {
            StatusRule::ComingSoon => IntegrationStatus::ComingSoon,
            StatusRule::AlwaysActive => IntegrationStatus::Active,
            StatusRule::AlwaysAvailable => IntegrationStatus::Available,
            StatusRule::TelegramConfigured => if config.channels_config.telegram.is_some() {
                IntegrationStatus::Active
            } else {
                IntegrationStatus::Available
            },
            StatusRule::DiscordConfigured => if config.channels_config.discord.is_some() {
                IntegrationStatus::Active
            } else {
                IntegrationStatus::Available
            },
            StatusRule::SlackConfigured => if config.channels_config.slack.is_some() {
                IntegrationStatus::Active
            } else {
                IntegrationStatus::Available
            },
            StatusRule::WebhookConfigured => if config.channels_config.webhook.is_some() {
                IntegrationStatus::Active
            } else {
                IntegrationStatus::Available
            },
            StatusRule::IMessageConfigured => if config.channels_config.imessage.is_some() {
                IntegrationStatus::Active
            } else {
                IntegrationStatus::Available
            },
            StatusRule::MatrixConfigured => if config.channels_config.matrix.is_some() {
                IntegrationStatus::Active
            } else {
                IntegrationStatus::Available
            },
            StatusRule::ProviderIs(p) => {
                let matched = match &config.default_provider {
                    Some(dp) => str_eq(dp.as_str(), p.as_str()),
                    None => false,
                };
                if matched {
                    IntegrationStatus::Active
                } else {
                    IntegrationStatus::Available
                }
            },
            StatusRule::ProviderWithKey(p) => {
                let matched = match &config.default_provider {
                    Some(dp) => str_eq(dp.as_str(), p.as_str()),
                    None => false,
                };
                if matched && config.api_key.is_some() {
                    IntegrationStatus::Active
                } else {
                    IntegrationStatus::Available
                }
            },
            StatusRule::ModelPrefix(pre) => {
                let matched = match &config.default_model {
                    Some(m) => str_starts_with(m.as_str(), pre.as_str()),
                    None => false,
                };
                if matched {
                    IntegrationStatus::Active
                } else {
                    IntegrationStatus::Available
                }
            },
            StatusRule::OsIs(o) => {
                if str_eq(os, o.as_str()) {
                    IntegrationStatus::Active
                } else {
                    IntegrationStatus::Available
                }
            },
        }
    }
}

fn entry(name: &str, description: &str, category: IntegrationCategory, rule: StatusRule) -> (e:
    IntegrationEntry)
    ensures
        e.name@ == name@,
        e.description@ == description@,
        e.category == category,
        e.rule == rule,
{
    IntegrationEntry { name: name.to_owned(), description: description.to_owned(), category, rule }
}

/// A short fingerprint of a catalogue name: its length and first three
/// characters. The catalogue's names all differ already on this key.
pub open spec fn name_key(s: Seq<char>) -> (int, char, char, char) {
    (s.len() as int, s[0], s[1], s[2])
}

/// The full catalogue of integrations.
///
/// The contract pins the catalogue's size, the identity of the entries the
/// runtime itself depends on, and that every category is represented.
#[verifier::rlimit(100)]
pub fn all_integrations() -> (r: Vec<IntegrationEntry>)
    ensures
        r@.len() == 74,
        r@[0].name@ == "Telegram"@ && r@[0].rule is TelegramConfigured && r@[0].category
            == IntegrationCategory::Chat,
        r@[1].name@ == "Discord"@ && r@[1].rule is DiscordConfigured,
        r@[2].name@ == "Slack"@ && r@[2].rule is SlackConfigured,
        r@[3].name@ == "Webhooks"@ && r@[3].rule is WebhookConfigured,
        r@[4].name@ == "WhatsApp"@ && r@[4].rule is ComingSoon,
        r@[5].name@ == "Signal"@ && r@[5].rule is ComingSoon,
        r@[6].name@ == "iMessage"@ && r@[6].rule is IMessageConfigured,
        r@[8].name@ == "Matrix"@ && r@[8].rule is MatrixConfigured,
        r@[9].name@ == "Nostr"@ && r@[9].rule is ComingSoon,
        r@[13].name@ == "OpenRouter"@ && (r@[13].rule matches StatusRule::ProviderWithKey(p)
            && p@ == "openrouter"@) && r@[13].category == IntegrationCategory::AiModel,
        r@[14].name@ == "Anthropic"@ && (r@[14].rule matches StatusRule::ProviderIs(p) && p@
            == "anthropic"@),
        r@[39].category == IntegrationCategory::Productivity,
        r@[48].name@ == "Spotify"@ && r@[48].rule is ComingSoon && r@[48].category
            == IntegrationCategory::MusicAudio,
        r@[51].name@ == "Home Assistant"@ && r@[51].rule is ComingSoon && r@[51].category
            == IntegrationCategory::SmartHome,
        r@[55].name@ == "Shell"@ && r@[55].rule is AlwaysActive && r@[55].category
            == IntegrationCategory::ToolsAutomation,
        r@[56].name@ == "File System"@ && r@[56].rule is AlwaysActive,
        r@[63].category == IntegrationCategory::MediaCreative,
        r@[67].category == IntegrationCategory::Social,
        r@[69].name@ == "macOS"@ && (r@[69].rule matches StatusRule::OsIs(o) && o@ == "macos"@)
            && r@[69].category == IntegrationCategory::Platform,
        r@[70].name@ == "Linux"@ && (r@[70].rule matches StatusRule::OsIs(o) && o@ == "linux"@),
        forall|a: int, b: int|
            0 <= a < b < r@.len() ==> (#[trigger] r@[a]).name@ != (#[trigger] r@[b]).name@,
        forall|a: int|
            0 <= a < r@.len() ==> (#[trigger] r@[a]).name@.len() > 0 && r@[a].description@.len()
                > 0,
{
    let mut v: Vec<IntegrationEntry> = Vec::new();
    // Chat
    v.push(entry("Telegram", "Bot API — 长轮询", IntegrationCategory::Chat, StatusRule::TelegramConfigured));
    v.push(entry("Discord", "服务器、频道与私信", IntegrationCategory::Chat, StatusRule::DiscordConfigured));
    v.push(entry("Slack", "通过 Web API 连接工作区应用", IntegrationCategory::Chat, StatusRule::SlackConfigured));
    v.push(entry("Webhooks", "用于触发的 HTTP 端点", IntegrationCategory::Chat, StatusRule::WebhookConfigured));
    v.push(entry("WhatsApp", "通过网页桥接扫码配对", IntegrationCategory::Chat, StatusRule::ComingSoon));
    v.push(entry("Signal", "通过 signal-cli 实现隐私通信", IntegrationCategory::Chat, StatusRule::ComingSoon));
    v.push(entry("iMessage", "macOS AppleScript 桥接", IntegrationCategory::Chat, StatusRule::IMessageConfigured));
    v.push(entry("Microsoft Teams", "企业聊天支持", IntegrationCategory::Chat, StatusRule::ComingSoon));
    v.push(entry("Matrix", "Matrix 协议 (Element)", IntegrationCategory::Chat, StatusRule::MatrixConfigured));
    v.push(entry("Nostr", "去中心化私信 (NIP-04)", IntegrationCategory::Chat, StatusRule::ComingSoon));
    v.push(entry("WebChat", "基于浏览器的聊天界面", IntegrationCategory::Chat, StatusRule::ComingSoon));
    v.push(entry("Nextcloud Talk", "自托管 Nextcloud 聊天", IntegrationCategory::Chat, StatusRule::ComingSoon));
    v.push(entry("Zalo", "Zalo Bot API", IntegrationCategory::Chat, StatusRule::ComingSoon));
    // AI models
    v.push(entry("OpenRouter", "200+ 模型，1 个 API key", IntegrationCategory::AiModel, StatusRule::ProviderWithKey("openrouter".to_owned())));
    v.push(entry("Anthropic", "Anthropic API 模型", IntegrationCategory::AiModel, StatusRule::ProviderIs("anthropic".to_owned())));
    v.push(entry("OpenAI", "GPT-4o, GPT-5, o1", IntegrationCategory::AiModel, StatusRule::ProviderIs("openai".to_owned())));
    v.push(entry("Google", "Gemini 2.5 Pro/Flash", IntegrationCategory::AiModel, StatusRule::ModelPrefix("google/".to_owned())));
    v.push(entry("DeepSeek", "DeepSeek V3 & R1", IntegrationCategory::AiModel, StatusRule::ModelPrefix("deepseek/".to_owned())));
    v.push(entry("xAI", "Grok 3 & 4", IntegrationCategory::AiModel, StatusRule::ModelPrefix("x-ai/".to_owned())));
    v.push(entry("Mistral", "Mistral Large & Codestral", IntegrationCategory::AiModel, StatusRule::ModelPrefix("mistral".to_owned())));
    v.push(entry("Ollama", "本地模型 (Llama 等)", IntegrationCategory::AiModel, StatusRule::ProviderIs("ollama".to_owned())));
    v.push(entry("Perplexity", "搜索增强 AI", IntegrationCategory::AiModel, StatusRule::ProviderIs("perplexity".to_owned())));
    v.push(entry("Hugging Face", "开源模型", IntegrationCategory::AiModel, StatusRule::ComingSoon));
    v.push(entry("LM Studio", "本地模型服务器", IntegrationCategory::AiModel, StatusRule::ComingSoon));
    v.push(entry("Venice", "隐私优先推理 (Llama, Opus)", IntegrationCategory::AiModel, StatusRule::ProviderIs("venice".to_owned())));
    v.push(entry("Vercel AI", "Vercel AI Gateway", IntegrationCategory::AiModel, StatusRule::ProviderIs("vercel".to_owned())));
    v.push(entry("Cloudflare AI", "Cloudflare AI Gateway", IntegrationCategory::AiModel, StatusRule::ProviderIs("cloudflare".to_owned())));
    v.push(entry("Moonshot", "Kimi & Kimi Coding", IntegrationCategory::AiModel, StatusRule::ProviderIs("moonshot".to_owned())));
    v.push(entry("Synthetic", "Synthetic AI 模型", IntegrationCategory::AiModel, StatusRule::ProviderIs("synthetic".to_owned())));
    v.push(entry("OpenCode Zen", "面向代码的 AI 模型", IntegrationCategory::AiModel, StatusRule::ProviderIs("opencode".to_owned())));
    v.push(entry("Z.AI", "Z.AI 推理", IntegrationCategory::AiModel, StatusRule::ProviderIs("zai".to_owned())));
    v.push(entry("GLM", "ChatGLM / 智谱模型", IntegrationCategory::AiModel, StatusRule::ProviderIs("glm".to_owned())));
    v.push(entry("MiniMax", "MiniMax AI 模型", IntegrationCategory::AiModel, StatusRule::ProviderIs("minimax".to_owned())));
    v.push(entry("Amazon Bedrock", "AWS 托管模型访问", IntegrationCategory::AiModel, StatusRule::ProviderIs("bedrock".to_owned())));
    v.push(entry("Qianfan", "百度 AI 模型", IntegrationCategory::AiModel, StatusRule::ProviderIs("qianfan".to_owned())));
    v.push(entry("Groq", "超快速 LPU 推理", IntegrationCategory::AiModel, StatusRule::ProviderIs("groq".to_owned())));
    v.push(entry("Together AI", "开源模型托管", IntegrationCategory::AiModel, StatusRule::ProviderIs("together".to_owned())));
    v.push(entry("Fireworks AI", "快速开源推理", IntegrationCategory::AiModel, StatusRule::ProviderIs("fireworks".to_owned())));
    v.push(entry("Cohere", "Command R+ 与嵌入", IntegrationCategory::AiModel, StatusRule::ProviderIs("cohere".to_owned())));
    // Productivity
    v.push(entry("GitHub", "代码、Issue、PR", IntegrationCategory::Productivity, StatusRule::ComingSoon));
    v.push(entry("Notion", "工作区与数据库", IntegrationCategory::Productivity, StatusRule::ComingSoon));
    v.push(entry("Apple Notes", "原生 macOS/iOS 备忘录", IntegrationCategory::Productivity, StatusRule::ComingSoon));
    v.push(entry("Apple Reminders", "任务管理", IntegrationCategory::Productivity, StatusRule::ComingSoon));
    v.push(entry("Obsidian", "知识图谱笔记", IntegrationCategory::Productivity, StatusRule::ComingSoon));
    v.push(entry("Things 3", "GTD 任务管理器", IntegrationCategory::Productivity, StatusRule::ComingSoon));
    v.push(entry("Bear Notes", "Markdown 笔记", IntegrationCategory::Productivity, StatusRule::ComingSoon));
    v.push(entry("Trello", "看板", IntegrationCategory::Productivity, StatusRule::ComingSoon));
    v.push(entry("Linear", "Issue 跟踪", IntegrationCategory::Productivity, StatusRule::ComingSoon));
    // Music & audio
    v.push(entry("Spotify", "音乐播放控制", IntegrationCategory::MusicAudio, StatusRule::ComingSoon));
    v.push(entry("Sonos", "多房间音频", IntegrationCategory::MusicAudio, StatusRule::ComingSoon));
    v.push(entry("Shazam", "歌曲识别", IntegrationCategory::MusicAudio, StatusRule::ComingSoon));
    // Smart home
    v.push(entry("Home Assistant", "家庭自动化中枢", IntegrationCategory::SmartHome, StatusRule::ComingSoon));
    v.push(entry("Philips Hue", "智能照明", IntegrationCategory::SmartHome, StatusRule::ComingSoon));
    v.push(entry("8Sleep", "智能床垫", IntegrationCategory::SmartHome, StatusRule::ComingSoon));
    // Tools & automation
    v.push(entry("Browser", "Chrome/Chromium 控制", IntegrationCategory::ToolsAutomation, StatusRule::AlwaysAvailable));
    v.push(entry("Shell", "终端命令执行", IntegrationCategory::ToolsAutomation, StatusRule::AlwaysActive));
    v.push(entry("File System", "文件读写", IntegrationCategory::ToolsAutomation, StatusRule::AlwaysActive));
    v.push(entry("Cron", "定时任务", IntegrationCategory::ToolsAutomation, StatusRule::AlwaysAvailable));
    v.push(entry("Voice", "语音唤醒 + 对话模式", IntegrationCategory::ToolsAutomation, StatusRule::ComingSoon));
    v.push(entry("Gmail", "邮件触发与发送", IntegrationCategory::ToolsAutomation, StatusRule::ComingSoon));
    v.push(entry("1Password", "安全凭证管理", IntegrationCategory::ToolsAutomation, StatusRule::ComingSoon));
    v.push(entry("Weather", "天气预报与状况", IntegrationCategory::ToolsAutomation, StatusRule::ComingSoon));
    v.push(entry("Canvas", "可视化工作区 + A2UI", IntegrationCategory::ToolsAutomation, StatusRule::ComingSoon));
    // Media & creative
    v.push(entry("Image Gen", "AI 图像生成", IntegrationCategory::MediaCreative, StatusRule::ComingSoon));
    v.push(entry("GIF Search", "搜索完美 GIF", IntegrationCategory::MediaCreative, StatusRule::ComingSoon));
    v.push(entry("Screen Capture", "截屏与屏幕控制", IntegrationCategory::MediaCreative, StatusRule::ComingSoon));
    v.push(entry("Camera", "照片/视频拍摄", IntegrationCategory::MediaCreative, StatusRule::ComingSoon));
    // Social
    v.push(entry("Twitter/X", "发推、回复、搜索", IntegrationCategory::Social, StatusRule::ComingSoon));
    v.push(entry("Email", "发送与阅读邮件", IntegrationCategory::Social, StatusRule::ComingSoon));
    // Platforms
    v.push(entry("macOS", "原生支持 + AppleScript", IntegrationCategory::Platform, StatusRule::OsIs("macos".to_owned())));
    v.push(entry("Linux", "原生支持", IntegrationCategory::Platform, StatusRule::OsIs("linux".to_owned())));
    v.push(entry("Windows", "推荐使用 WSL2", IntegrationCategory::Platform, StatusRule::AlwaysAvailable));
    v.push(entry("iOS", "通过 Telegram/Discord 聊天", IntegrationCategory::Platform, StatusRule::AlwaysAvailable));
    v.push(entry("Android", "通过 Telegram/Discord 聊天", IntegrationCategory::Platform, StatusRule::AlwaysAvailable));
    proof {
        reveal_strlit("Telegram");
        reveal_strlit("Bot API — 长轮询");
        assert(v@[0].name@.len() == 8 && v@[0].name@[0] == 'T' && v@[0].name@[1] == 'e' && v@[0].name@[2] == 'l');
        assert(v@[0].description@.len() > 0);
        reveal_strlit("Discord");
        reveal_strlit("服务器、频道与私信");
        assert(v@[1].name@.len() == 7 && v@[1].name@[0] == 'D' && v@[1].name@[1] == 'i' && v@[1].name@[2] == 's');
        assert(v@[1].description@.len() > 0);
        reveal_strlit("Slack");
        reveal_strlit("通过 Web API 连接工作区应用");
        assert(v@[2].name@.len() == 5 && v@[2].name@[0] == 'S' && v@[2].name@[1] == 'l' && v@[2].name@[2] == 'a');
        assert(v@[2].description@.len() > 0);
        reveal_strlit("Webhooks");
        reveal_strlit("用于触发的 HTTP 端点");
        assert(v@[3].name@.len() == 8 && v@[3].name@[0] == 'W' && v@[3].name@[1] == 'e' && v@[3].name@[2] == 'b');
        assert(v@[3].description@.len() > 0);
        reveal_strlit("WhatsApp");
        reveal_strlit("通过网页桥接扫码配对");
        assert(v@[4].name@.len() == 8 && v@[4].name@[0] == 'W' && v@[4].name@[1] == 'h' && v@[4].name@[2] == 'a');
        assert(v@[4].description@.len() > 0);
        reveal_strlit("Signal");
        reveal_strlit("通过 signal-cli 实现隐私通信");
        assert(v@[5].name@.len() == 6 && v@[5].name@[0] == 'S' && v@[5].name@[1] == 'i' && v@[5].name@[2] == 'g');
        assert(v@[5].description@.len() > 0);
        reveal_strlit("iMessage");
        reveal_strlit("macOS AppleScript 桥接");
        assert(v@[6].name@.len() == 8 && v@[6].name@[0] == 'i' && v@[6].name@[1] == 'M' && v@[6].name@[2] == 'e');
        assert(v@[6].description@.len() > 0);
        reveal_strlit("Microsoft Teams");
        reveal_strlit("企业聊天支持");
        assert(v@[7].name@.len() == 15 && v@[7].name@[0] == 'M' && v@[7].name@[1] == 'i' && v@[7].name@[2] == 'c');
        assert(v@[7].description@.len() > 0);
        reveal_strlit("Matrix");
        reveal_strlit("Matrix 协议 (Element)");
        assert(v@[8].name@.len() == 6 && v@[8].name@[0] == 'M' && v@[8].name@[1] == 'a' && v@[8].name@[2] == 't');
        assert(v@[8].description@.len() > 0);
        reveal_strlit("Nostr");
        reveal_strlit("去中心化私信 (NIP-04)");
        assert(v@[9].name@.len() == 5 && v@[9].name@[0] == 'N' && v@[9].name@[1] == 'o' && v@[9].name@[2] == 's');
        assert(v@[9].description@.len() > 0);
        reveal_strlit("WebChat");
        reveal_strlit("基于浏览器的聊天界面");
        assert(v@[10].name@.len() == 7 && v@[10].name@[0] == 'W' && v@[10].name@[1] == 'e' && v@[10].name@[2] == 'b');
        assert(v@[10].description@.len() > 0);
        reveal_strlit("Nextcloud Talk");
        reveal_strlit("自托管 Nextcloud 聊天");
        assert(v@[11].name@.len() == 14 && v@[11].name@[0] == 'N' && v@[11].name@[1] == 'e' && v@[11].name@[2] == 'x');
        assert(v@[11].description@.len() > 0);
        reveal_strlit("Zalo");
        reveal_strlit("Zalo Bot API");
        assert(v@[12].name@.len() == 4 && v@[12].name@[0] == 'Z' && v@[12].name@[1] == 'a' && v@[12].name@[2] == 'l');
        assert(v@[12].description@.len() > 0);
        reveal_strlit("OpenRouter");
        reveal_strlit("200+ 模型，1 个 API key");
        assert(v@[13].name@.len() == 10 && v@[13].name@[0] == 'O' && v@[13].name@[1] == 'p' && v@[13].name@[2] == 'e');
        assert(v@[13].description@.len() > 0);
        reveal_strlit("Anthropic");
        reveal_strlit("Anthropic API 模型");
        assert(v@[14].name@.len() == 9 && v@[14].name@[0] == 'A' && v@[14].name@[1] == 'n' && v@[14].name@[2] == 't');
        assert(v@[14].description@.len() > 0);
        reveal_strlit("OpenAI");
        reveal_strlit("GPT-4o, GPT-5, o1");
        assert(v@[15].name@.len() == 6 && v@[15].name@[0] == 'O' && v@[15].name@[1] == 'p' && v@[15].name@[2] == 'e');
        assert(v@[15].description@.len() > 0);
        reveal_strlit("Google");
        reveal_strlit("Gemini 2.5 Pro/Flash");
        assert(v@[16].name@.len() == 6 && v@[16].name@[0] == 'G' && v@[16].name@[1] == 'o' && v@[16].name@[2] == 'o');
        assert(v@[16].description@.len() > 0);
        reveal_strlit("DeepSeek");
        reveal_strlit("DeepSeek V3 & R1");
        assert(v@[17].name@.len() == 8 && v@[17].name@[0] == 'D' && v@[17].name@[1] == 'e' && v@[17].name@[2] == 'e');
        assert(v@[17].description@.len() > 0);
        reveal_strlit("xAI");
        reveal_strlit("Grok 3 & 4");
        assert(v@[18].name@.len() == 3 && v@[18].name@[0] == 'x' && v@[18].name@[1] == 'A' && v@[18].name@[2] == 'I');
        assert(v@[18].description@.len() > 0);
        reveal_strlit("Mistral");
        reveal_strlit("Mistral Large & Codestral");
        assert(v@[19].name@.len() == 7 && v@[19].name@[0] == 'M' && v@[19].name@[1] == 'i' && v@[19].name@[2] == 's');
        assert(v@[19].description@.len() > 0);
        reveal_strlit("Ollama");
        reveal_strlit("本地模型 (Llama 等)");
        assert(v@[20].name@.len() == 6 && v@[20].name@[0] == 'O' && v@[20].name@[1] == 'l' && v@[20].name@[2] == 'l');
        assert(v@[20].description@.len() > 0);
        reveal_strlit("Perplexity");
        reveal_strlit("搜索增强 AI");
        assert(v@[21].name@.len() == 10 && v@[21].name@[0] == 'P' && v@[21].name@[1] == 'e' && v@[21].name@[2] == 'r');
        assert(v@[21].description@.len() > 0);
        reveal_strlit("Hugging Face");
        reveal_strlit("开源模型");
        assert(v@[22].name@.len() == 12 && v@[22].name@[0] == 'H' && v@[22].name@[1] == 'u' && v@[22].name@[2] == 'g');
        assert(v@[22].description@.len() > 0);
        reveal_strlit("LM Studio");
        reveal_strlit("本地模型服务器");
        assert(v@[23].name@.len() == 9 && v@[23].name@[0] == 'L' && v@[23].name@[1] == 'M' && v@[23].name@[2] == ' ');
        assert(v@[23].description@.len() > 0);
        reveal_strlit("Venice");
        reveal_strlit("隐私优先推理 (Llama, Opus)");
        assert(v@[24].name@.len() == 6 && v@[24].name@[0] == 'V' && v@[24].name@[1] == 'e' && v@[24].name@[2] == 'n');
        assert(v@[24].description@.len() > 0);
        reveal_strlit("Vercel AI");
        reveal_strlit("Vercel AI Gateway");
        assert(v@[25].name@.len() == 9 && v@[25].name@[0] == 'V' && v@[25].name@[1] == 'e' && v@[25].name@[2] == 'r');
        assert(v@[25].description@.len() > 0);
        reveal_strlit("Cloudflare AI");
        reveal_strlit("Cloudflare AI Gateway");
        assert(v@[26].name@.len() == 13 && v@[26].name@[0] == 'C' && v@[26].name@[1] == 'l' && v@[26].name@[2] == 'o');
        assert(v@[26].description@.len() > 0);
        reveal_strlit("Moonshot");
        reveal_strlit("Kimi & Kimi Coding");
        assert(v@[27].name@.len() == 8 && v@[27].name@[0] == 'M' && v@[27].name@[1] == 'o' && v@[27].name@[2] == 'o');
        assert(v@[27].description@.len() > 0);
        reveal_strlit("Synthetic");
        reveal_strlit("Synthetic AI 模型");
        assert(v@[28].name@.len() == 9 && v@[28].name@[0] == 'S' && v@[28].name@[1] == 'y' && v@[28].name@[2] == 'n');
        assert(v@[28].description@.len() > 0);
        reveal_strlit("OpenCode Zen");
        reveal_strlit("面向代码的 AI 模型");
        assert(v@[29].name@.len() == 12 && v@[29].name@[0] == 'O' && v@[29].name@[1] == 'p' && v@[29].name@[2] == 'e');
        assert(v@[29].description@.len() > 0);
        reveal_strlit("Z.AI");
        reveal_strlit("Z.AI 推理");
        assert(v@[30].name@.len() == 4 && v@[30].name@[0] == 'Z' && v@[30].name@[1] == '.' && v@[30].name@[2] == 'A');
        assert(v@[30].description@.len() > 0);
        reveal_strlit("GLM");
        reveal_strlit("ChatGLM / 智谱模型");
        assert(v@[31].name@.len() == 3 && v@[31].name@[0] == 'G' && v@[31].name@[1] == 'L' && v@[31].name@[2] == 'M');
        assert(v@[31].description@.len() > 0);
        reveal_strlit("MiniMax");
        reveal_strlit("MiniMax AI 模型");
        assert(v@[32].name@.len() == 7 && v@[32].name@[0] == 'M' && v@[32].name@[1] == 'i' && v@[32].name@[2] == 'n');
        assert(v@[32].description@.len() > 0);
        reveal_strlit("Amazon Bedrock");
        reveal_strlit("AWS 托管模型访问");
        assert(v@[33].name@.len() == 14 && v@[33].name@[0] == 'A' && v@[33].name@[1] == 'm' && v@[33].name@[2] == 'a');
        assert(v@[33].description@.len() > 0);
        reveal_strlit("Qianfan");
        reveal_strlit("百度 AI 模型");
        assert(v@[34].name@.len() == 7 && v@[34].name@[0] == 'Q' && v@[34].name@[1] == 'i' && v@[34].name@[2] == 'a');
        assert(v@[34].description@.len() > 0);
        reveal_strlit("Groq");
        reveal_strlit("超快速 LPU 推理");
        assert(v@[35].name@.len() == 4 && v@[35].name@[0] == 'G' && v@[35].name@[1] == 'r' && v@[35].name@[2] == 'o');
        assert(v@[35].description@.len() > 0);
        reveal_strlit("Together AI");
        reveal_strlit("开源模型托管");
        assert(v@[36].name@.len() == 11 && v@[36].name@[0] == 'T' && v@[36].name@[1] == 'o' && v@[36].name@[2] == 'g');
        assert(v@[36].description@.len() > 0);
        reveal_strlit("Fireworks AI");
        reveal_strlit("快速开源推理");
        assert(v@[37].name@.len() == 12 && v@[37].name@[0] == 'F' && v@[37].name@[1] == 'i' && v@[37].name@[2] == 'r');
        assert(v@[37].description@.len() > 0);
        reveal_strlit("Cohere");
        reveal_strlit("Command R+ 与嵌入");
        assert(v@[38].name@.len() == 6 && v@[38].name@[0] == 'C' && v@[38].name@[1] == 'o' && v@[38].name@[2] == 'h');
        assert(v@[38].description@.len() > 0);
        reveal_strlit("GitHub");
        reveal_strlit("代码、Issue、PR");
        assert(v@[39].name@.len() == 6 && v@[39].name@[0] == 'G' && v@[39].name@[1] == 'i' && v@[39].name@[2] == 't');
        assert(v@[39].description@.len() > 0);
        reveal_strlit("Notion");
        reveal_strlit("工作区与数据库");
        assert(v@[40].name@.len() == 6 && v@[40].name@[0] == 'N' && v@[40].name@[1] == 'o' && v@[40].name@[2] == 't');
        assert(v@[40].description@.len() > 0);
        reveal_strlit("Apple Notes");
        reveal_strlit("原生 macOS/iOS 备忘录");
        assert(v@[41].name@.len() == 11 && v@[41].name@[0] == 'A' && v@[41].name@[1] == 'p' && v@[41].name@[2] == 'p');
        assert(v@[41].description@.len() > 0);
        reveal_strlit("Apple Reminders");
        reveal_strlit("任务管理");
        assert(v@[42].name@.len() == 15 && v@[42].name@[0] == 'A' && v@[42].name@[1] == 'p' && v@[42].name@[2] == 'p');
        assert(v@[42].description@.len() > 0);
        reveal_strlit("Obsidian");
        reveal_strlit("知识图谱笔记");
        assert(v@[43].name@.len() == 8 && v@[43].name@[0] == 'O' && v@[43].name@[1] == 'b' && v@[43].name@[2] == 's');
        assert(v@[43].description@.len() > 0);
        reveal_strlit("Things 3");
        reveal_strlit("GTD 任务管理器");
        assert(v@[44].name@.len() == 8 && v@[44].name@[0] == 'T' && v@[44].name@[1] == 'h' && v@[44].name@[2] == 'i');
        assert(v@[44].description@.len() > 0);
        reveal_strlit("Bear Notes");
        reveal_strlit("Markdown 笔记");
        assert(v@[45].name@.len() == 10 && v@[45].name@[0] == 'B' && v@[45].name@[1] == 'e' && v@[45].name@[2] == 'a');
        assert(v@[45].description@.len() > 0);
        reveal_strlit("Trello");
        reveal_strlit("看板");
        assert(v@[46].name@.len() == 6 && v@[46].name@[0] == 'T' && v@[46].name@[1] == 'r' && v@[46].name@[2] == 'e');
        assert(v@[46].description@.len() > 0);
        reveal_strlit("Linear");
        reveal_strlit("Issue 跟踪");
        assert(v@[47].name@.len() == 6 && v@[47].name@[0] == 'L' && v@[47].name@[1] == 'i' && v@[47].name@[2] == 'n');
        assert(v@[47].description@.len() > 0);
        reveal_strlit("Spotify");
        reveal_strlit("音乐播放控制");
        assert(v@[48].name@.len() == 7 && v@[48].name@[0] == 'S' && v@[48].name@[1] == 'p' && v@[48].name@[2] == 'o');
        assert(v@[48].description@.len() > 0);
        reveal_strlit("Sonos");
        reveal_strlit("多房间音频");
        assert(v@[49].name@.len() == 5 && v@[49].name@[0] == 'S' && v@[49].name@[1] == 'o' && v@[49].name@[2] == 'n');
        assert(v@[49].description@.len() > 0);
        reveal_strlit("Shazam");
        reveal_strlit("歌曲识别");
        assert(v@[50].name@.len() == 6 && v@[50].name@[0] == 'S' && v@[50].name@[1] == 'h' && v@[50].name@[2] == 'a');
        assert(v@[50].description@.len() > 0);
        reveal_strlit("Home Assistant");
        reveal_strlit("家庭自动化中枢");
        assert(v@[51].name@.len() == 14 && v@[51].name@[0] == 'H' && v@[51].name@[1] == 'o' && v@[51].name@[2] == 'm');
        assert(v@[51].description@.len() > 0);
        reveal_strlit("Philips Hue");
        reveal_strlit("智能照明");
        assert(v@[52].name@.len() == 11 && v@[52].name@[0] == 'P' && v@[52].name@[1] == 'h' && v@[52].name@[2] == 'i');
        assert(v@[52].description@.len() > 0);
        reveal_strlit("8Sleep");
        reveal_strlit("智能床垫");
        assert(v@[53].name@.len() == 6 && v@[53].name@[0] == '8' && v@[53].name@[1] == 'S' && v@[53].name@[2] == 'l');
        assert(v@[53].description@.len() > 0);
        reveal_strlit("Browser");
        reveal_strlit("Chrome/Chromium 控制");
        assert(v@[54].name@.len() == 7 && v@[54].name@[0] == 'B' && v@[54].name@[1] == 'r' && v@[54].name@[2] == 'o');
        assert(v@[54].description@.len() > 0);
        reveal_strlit("Shell");
        reveal_strlit("终端命令执行");
        assert(v@[55].name@.len() == 5 && v@[55].name@[0] == 'S' && v@[55].name@[1] == 'h' && v@[55].name@[2] == 'e');
        assert(v@[55].description@.len() > 0);
        reveal_strlit("File System");
        reveal_strlit("文件读写");
        assert(v@[56].name@.len() == 11 && v@[56].name@[0] == 'F' && v@[56].name@[1] == 'i' && v@[56].name@[2] == 'l');
        assert(v@[56].description@.len() > 0);
        reveal_strlit("Cron");
        reveal_strlit("定时任务");
        assert(v@[57].name@.len() == 4 && v@[57].name@[0] == 'C' && v@[57].name@[1] == 'r' && v@[57].name@[2] == 'o');
        assert(v@[57].description@.len() > 0);
        reveal_strlit("Voice");
        reveal_strlit("语音唤醒 + 对话模式");
        assert(v@[58].name@.len() == 5 && v@[58].name@[0] == 'V' && v@[58].name@[1] == 'o' && v@[58].name@[2] == 'i');
        assert(v@[58].description@.len() > 0);
        reveal_strlit("Gmail");
        reveal_strlit("邮件触发与发送");
        assert(v@[59].name@.len() == 5 && v@[59].name@[0] == 'G' && v@[59].name@[1] == 'm' && v@[59].name@[2] == 'a');
        assert(v@[59].description@.len() > 0);
        reveal_strlit("1Password");
        reveal_strlit("安全凭证管理");
        assert(v@[60].name@.len() == 9 && v@[60].name@[0] == '1' && v@[60].name@[1] == 'P' && v@[60].name@[2] == 'a');
        assert(v@[60].description@.len() > 0);
        reveal_strlit("Weather");
        reveal_strlit("天气预报与状况");
        assert(v@[61].name@.len() == 7 && v@[61].name@[0] == 'W' && v@[61].name@[1] == 'e' && v@[61].name@[2] == 'a');
        assert(v@[61].description@.len() > 0);
        reveal_strlit("Canvas");
        reveal_strlit("可视化工作区 + A2UI");
        assert(v@[62].name@.len() == 6 && v@[62].name@[0] == 'C' && v@[62].name@[1] == 'a' && v@[62].name@[2] == 'n');
        assert(v@[62].description@.len() > 0);
        reveal_strlit("Image Gen");
        reveal_strlit("AI 图像生成");
        assert(v@[63].name@.len() == 9 && v@[63].name@[0] == 'I' && v@[63].name@[1] == 'm' && v@[63].name@[2] == 'a');
        assert(v@[63].description@.len() > 0);
        reveal_strlit("GIF Search");
        reveal_strlit("搜索完美 GIF");
        assert(v@[64].name@.len() == 10 && v@[64].name@[0] == 'G' && v@[64].name@[1] == 'I' && v@[64].name@[2] == 'F');
        assert(v@[64].description@.len() > 0);
        reveal_strlit("Screen Capture");
        reveal_strlit("截屏与屏幕控制");
        assert(v@[65].name@.len() == 14 && v@[65].name@[0] == 'S' && v@[65].name@[1] == 'c' && v@[65].name@[2] == 'r');
        assert(v@[65].description@.len() > 0);
        reveal_strlit("Camera");
        reveal_strlit("照片/视频拍摄");
        assert(v@[66].name@.len() == 6 && v@[66].name@[0] == 'C' && v@[66].name@[1] == 'a' && v@[66].name@[2] == 'm');
        assert(v@[66].description@.len() > 0);
        reveal_strlit("Twitter/X");
        reveal_strlit("发推、回复、搜索");
        assert(v@[67].name@.len() == 9 && v@[67].name@[0] == 'T' && v@[67].name@[1] == 'w' && v@[67].name@[2] == 'i');
        assert(v@[67].description@.len() > 0);
        reveal_strlit("Email");
        reveal_strlit("发送与阅读邮件");
        assert(v@[68].name@.len() == 5 && v@[68].name@[0] == 'E' && v@[68].name@[1] == 'm' && v@[68].name@[2] == 'a');
        assert(v@[68].description@.len() > 0);
        reveal_strlit("macOS");
        reveal_strlit("原生支持 + AppleScript");
        assert(v@[69].name@.len() == 5 && v@[69].name@[0] == 'm' && v@[69].name@[1] == 'a' && v@[69].name@[2] == 'c');
        assert(v@[69].description@.len() > 0);
        reveal_strlit("Linux");
        reveal_strlit("原生支持");
        assert(v@[70].name@.len() == 5 && v@[70].name@[0] == 'L' && v@[70].name@[1] == 'i' && v@[70].name@[2] == 'n');
        assert(v@[70].description@.len() > 0);
        reveal_strlit("Windows");
        reveal_strlit("推荐使用 WSL2");
        assert(v@[71].name@.len() == 7 && v@[71].name@[0] == 'W' && v@[71].name@[1] == 'i' && v@[71].name@[2] == 'n');
        assert(v@[71].description@.len() > 0);
        reveal_strlit("iOS");
        reveal_strlit("通过 Telegram/Discord 聊天");
        assert(v@[72].name@.len() == 3 && v@[72].name@[0] == 'i' && v@[72].name@[1] == 'O' && v@[72].name@[2] == 'S');
        assert(v@[72].description@.len() > 0);
        reveal_strlit("Android");
        reveal_strlit("通过 Telegram/Discord 聊天");
        assert(v@[73].name@.len() == 7 && v@[73].name@[0] == 'A' && v@[73].name@[1] == 'n' && v@[73].name@[2] == 'd');
        assert(v@[73].description@.len() > 0);
        assert forall|a: int, b: int| 0 <= a < b < v@.len() implies (#[trigger] v@[a]).name@ != (
        #[trigger] v@[b]).name@ by {
            assert(name_key(v@[a].name@) != name_key(v@[b].name@));
        }
        assert(forall|a: int|
            0 <= a < v@.len() ==> (#[trigger] v@[a]).name@.len() > 0 && v@[a].description@.len()
                > 0);
    }
    v
}

} // verus!
