use jarvis::config::{Config, ProjectContext};
use jarvis::security::SecurityPolicy;
use jarvis::service::xml_escape;
use jarvis::websearch::WebSearchTool;

#[test]
fn xml_escape_escapes_reserved_chars() {
    let escaped = xml_escape("<&>\"' and text");
    assert_eq!(escaped, "&lt;&amp;&gt;&quot;&apos; and text");
}

#[test]
fn xml_escape_leaves_plain_text_alone() {
    assert_eq!(xml_escape("plain path/with-dashes_1"), "plain path/with-dashes_1");
    assert_eq!(xml_escape(""), "");
}

#[test]
fn project_context_default_is_empty() {
    let ctx = ProjectContext::default();
    assert!(ctx.user_name.is_empty());
    assert!(ctx.timezone.is_empty());
    assert!(ctx.agent_name.is_empty());
    assert!(ctx.communication_style.is_empty());
}

#[test]
fn tool_name_and_description() {
    let tool = WebSearchTool::new("test-key", 5);
    assert_eq!(tool.name(), "web_search");
    assert!(!tool.description().is_empty());
}

#[test]
fn parameters_schema_has_query() {
    let tool = WebSearchTool::new("test-key", 5);
    let schema: serde_json::Value = serde_json::from_str(tool.parameters_schema()).unwrap();
    assert!(schema["properties"]["query"].is_object());
    assert_eq!(schema["required"][0], "query");
}

#[test]
fn count_clamped() {
    let tool = WebSearchTool::new("key", 50);
    assert_eq!(tool.count, 20);
    let tool = WebSearchTool::new("key", 0);
    assert_eq!(tool.count, 1);
    assert_eq!(tool.effective_count(Some(99)), 20);
    assert_eq!(tool.effective_count(None), 1);
}

#[test]
fn rate_limit_round_trip() {
    // After exactly max accepted calls within the hour the next is refused;
    // a full idle hour restores the quota.
    let mut policy = SecurityPolicy { max_actions_per_hour: 3, ..SecurityPolicy::default() };
    let base: u64 = 1_000_000;
    assert!(policy.record_action_at(base));
    assert!(policy.record_action_at(base + 10));
    assert!(policy.record_action_at(base + 20));
    assert!(!policy.record_action_at(base + 30));
    assert!(!policy.record_action_at(base + 3599));
    // One hour after the last accepted action everything is stale again.
    assert!(policy.record_action_at(base + 20 + 3600));
}

#[test]
fn rate_limit_window_slides() {
    let mut policy = SecurityPolicy { max_actions_per_hour: 1, ..SecurityPolicy::default() };
    let base: u64 = 50_000;
    assert!(policy.record_action_at(base));
    assert!(!policy.record_action_at(base + 100));
    // The old action leaves the window after an hour.
    assert!(policy.record_action_at(base + 3600));
}

#[test]
fn config_default_has_no_channels() {
    let config = Config::default();
    assert!(config.channels_config.telegram.is_none());
    assert!(config.channels_config.discord.is_none());
    assert!(config.channels_config.slack.is_none());
    assert!(config.api_key.is_none());
    assert_eq!(config.runtime.kind, "native");
}

#[test]
fn search_results_format_as_numbered_blocks() {
    let results = vec![
        jarvis::websearch::SearchResult {
            title: "First".into(),
            url: "https://a.example".into(),
            description: Some("about a".into()),
            age: Some("2 days ago".into()),
        },
        jarvis::websearch::SearchResult {
            title: "Second".into(),
            url: "https://b.example".into(),
            description: None,
            age: None,
        },
    ];
    let text = jarvis::websearch::format_results(&results);
    assert_eq!(
        text,
        "1. First\n   https://a.example\n   about a\n   (2 days ago)\n\n2. Second\n   https://b.example\n\n"
    );
    assert_eq!(jarvis::websearch::no_results_message("cats"), "No results found for: cats");
    assert!(jarvis::websearch::query_is_blank("  "));
    assert!(!jarvis::websearch::query_is_blank(" x "));
}

#[test]
fn numbers_render_in_decimal() {
    assert_eq!(jarvis::strings::u64_to_string(0), "0");
    assert_eq!(jarvis::strings::u64_to_string(7), "7");
    assert_eq!(jarvis::strings::u64_to_string(10), "10");
    assert_eq!(jarvis::strings::u64_to_string(90210), "90210");
    assert_eq!(jarvis::strings::u64_to_string(u64::MAX), "18446744073709551615");
}

#[test]
fn heartbeat_prompt_is_prefixed() {
    assert_eq!(jarvis::daemon::heartbeat_prompt("water plants"), "[Heartbeat Task] water plants");
}

#[test]
fn allowed_commands_gate_by_first_token() {
    let open_policy = SecurityPolicy::default();
    assert!(open_policy.command_allowed("rm -rf /tmp/x"));

    let gated = SecurityPolicy {
        allowed_commands: vec!["ls".to_string(), "cat".to_string()],
        ..SecurityPolicy::default()
    };
    assert!(gated.command_allowed("ls -la"));
    assert!(gated.command_allowed("  cat notes.txt"));
    assert!(!gated.command_allowed("rm -rf /"));
    assert!(!gated.command_allowed("lsof"));
}

#[test]
fn workspace_confinement_checks_the_resolved_path() {
    let path_within_workspace = jarvis::security::path_within_workspace;
    assert!(path_within_workspace("/home/u/.jarvis/workspace", "/home/u/.jarvis/workspace"));
    assert!(path_within_workspace("/home/u/.jarvis/workspace/notes.md", "/home/u/.jarvis/workspace"));
    assert!(!path_within_workspace("/home/u/.jarvis/workspace-evil/x", "/home/u/.jarvis/workspace"));
    assert!(!path_within_workspace("/etc/passwd", "/home/u/.jarvis/workspace"));
}

#[test]
fn heartbeat_interval_has_a_floor() {
    assert_eq!(jarvis::daemon::heartbeat_interval_minutes(0), 5);
    assert_eq!(jarvis::daemon::heartbeat_interval_minutes(5), 5);
    assert_eq!(jarvis::daemon::heartbeat_interval_minutes(45), 45);
}
