use jarvis::chat::{ChatMessage, FunctionCall, ToolCall};
use jarvis::codec::{chat_message_from_wire, render_wire_message, wire_round_trip};
use jarvis::providers_meta::{default_model_for_provider, provider_env_var};
use jarvis::wire::{
    extract_responses_text, first_nonempty, response_from_message, wire_message_from, AuthStyle,
    OpenAiCompatibleProvider, ResponsesBody, ResponsesContent, ResponsesOutput,
    WireFunctionCall, WireResponseMessage, WireToolCall,
};

fn make_provider(name: &str, url: &str, key: Option<&str>) -> OpenAiCompatibleProvider {
    OpenAiCompatibleProvider::new(name, url, key, AuthStyle::Bearer)
}

#[test]
fn provider_env_var_known_providers() {
    assert_eq!(provider_env_var("openrouter"), "OPENROUTER_API_KEY");
    assert_eq!(provider_env_var("anthropic"), "ANTHROPIC_API_KEY");
    assert_eq!(provider_env_var("openai"), "OPENAI_API_KEY");
    assert_eq!(provider_env_var("ollama"), "API_KEY"); // fallback
    assert_eq!(provider_env_var("xai"), "XAI_API_KEY");
    assert_eq!(provider_env_var("grok"), "XAI_API_KEY"); // alias
    assert_eq!(provider_env_var("together"), "TOGETHER_API_KEY");
    assert_eq!(provider_env_var("together-ai"), "TOGETHER_API_KEY"); // alias
}

#[test]
fn provider_env_var_unknown_falls_back() {
    assert_eq!(provider_env_var("some-new-provider"), "API_KEY");
}

#[test]
fn default_models_per_provider() {
    assert_eq!(default_model_for_provider("anthropic"), "sonnet-4-20250514");
    assert_eq!(default_model_for_provider("openai"), "gpt-4o");
    assert_eq!(default_model_for_provider("unheard-of"), "anthropic/sonnet-4-20250514");
}

#[test]
fn creates_with_key() {
    let p = make_provider("venice", "https://api.venice.ai", Some("vn-key"));
    assert_eq!(p.name, "venice");
    assert_eq!(p.base_url, "https://api.venice.ai");
    assert_eq!(p.api_key.as_deref(), Some("vn-key"));
}

#[test]
fn creates_without_key() {
    let p = make_provider("test", "https://example.com", None);
    assert!(p.api_key.is_none());
}

#[test]
fn strips_trailing_slash() {
    let p = make_provider("test", "https://example.com/", None);
    assert_eq!(p.base_url, "https://example.com");
}

#[test]
fn chat_fails_without_key() {
    let p = make_provider("Venice", "https://api.venice.ai", None);
    let result = p.require_api_key();
    assert!(result.is_err());
    assert!(result.unwrap_err().contains("Venice API key not set"));
}

#[test]
fn chat_completions_url_standard_openai() {
    let p = make_provider("openai", "https://api.openai.com/v1", None);
    assert_eq!(p.chat_completions_url(), "https://api.openai.com/v1/chat/completions");
}

#[test]
fn chat_completions_url_trailing_slash() {
    let p = make_provider("test", "https://api.example.com/v1/", None);
    assert_eq!(p.chat_completions_url(), "https://api.example.com/v1/chat/completions");
}

#[test]
fn chat_completions_url_appends_when_not_a_suffix() {
    // The base merely contains chat/completions without ending in it, so
    // the standard path is appended.
    let p = make_provider("test", "https://h.example/chat/completions/v2", None);
    assert_eq!(p.chat_completions_url(), "https://h.example/chat/completions/v2/chat/completions");
}

#[test]
fn chat_completions_url_volcengine_ark() {
    let p = make_provider(
        "volcengine",
        "https://ark.cn-beijing.volces.com/api/coding/v3/chat/completions",
        None,
    );
    assert_eq!(
        p.chat_completions_url(),
        "https://ark.cn-beijing.volces.com/api/coding/v3/chat/completions"
    );
}

#[test]
fn chat_completions_url_custom_full_endpoint() {
    let p = make_provider("custom", "https://my-api.example.com/v2/llm/chat/completions", None);
    assert_eq!(p.chat_completions_url(), "https://my-api.example.com/v2/llm/chat/completions");
}

#[test]
fn responses_url_standard() {
    let p = make_provider("test", "https://api.example.com", None);
    assert_eq!(p.responses_url(), "https://api.example.com/v1/responses");
}

#[test]
fn responses_url_custom_full_endpoint() {
    let p = make_provider("custom", "https://my-api.example.com/api/v2/responses", None);
    assert_eq!(p.responses_url(), "https://my-api.example.com/api/v2/responses");
}

#[test]
fn chat_completions_url_without_v1() {
    let p = make_provider("test", "https://api.example.com", None);
    assert_eq!(p.chat_completions_url(), "https://api.example.com/chat/completions");
}

#[test]
fn chat_completions_url_base_with_v1() {
    let p = make_provider("test", "https://api.example.com/v1", None);
    assert_eq!(p.chat_completions_url(), "https://api.example.com/v1/chat/completions");
}

#[test]
fn x_api_key_auth_style() {
    let p = OpenAiCompatibleProvider::new(
        "moonshot",
        "https://api.moonshot.cn",
        Some("ms-key"),
        AuthStyle::XApiKey,
    );
    assert!(matches!(p.auth_header, AuthStyle::XApiKey));
    let (name, value) = p.auth_header_parts("ms-key");
    assert_eq!(name, "x-api-key");
    assert_eq!(value, "ms-key");
}

#[test]
fn custom_auth_style() {
    let p = OpenAiCompatibleProvider::new(
        "custom",
        "https://api.example.com",
        Some("key"),
        AuthStyle::Custom("X-Custom-Key".into()),
    );
    assert!(matches!(p.auth_header, AuthStyle::Custom(_)));
    let (name, value) = p.auth_header_parts("key");
    assert_eq!(name, "X-Custom-Key");
    assert_eq!(value, "key");
}

#[test]
fn bearer_auth_style_formats_header() {
    let p = make_provider("openai", "https://api.openai.com/v1", Some("sk-1"));
    let (name, value) = p.auth_header_parts("sk-1");
    assert_eq!(name, "Authorization");
    assert_eq!(value, "Bearer sk-1");
}

#[test]
fn wire_message_from_chat_message_system() {
    let msg = ChatMessage::System { content: "You are helpful.".into() };
    let wire = wire_message_from(&msg);
    assert_eq!(wire.role, "system");
    assert_eq!(wire.content.as_deref(), Some("You are helpful."));
    assert!(wire.tool_calls.is_none());
    assert!(wire.tool_call_id.is_none());
}

#[test]
fn wire_message_from_chat_message_tool() {
    let msg = ChatMessage::Tool { tool_call_id: "call_123".into(), content: "result data".into() };
    let wire = wire_message_from(&msg);
    assert_eq!(wire.role, "tool");
    assert_eq!(wire.content.as_deref(), Some("result data"));
    assert_eq!(wire.tool_call_id.as_deref(), Some("call_123"));
}

#[test]
fn wire_message_from_assistant_with_tool_calls() {
    let msg = ChatMessage::Assistant {
        content: None,
        tool_calls: Some(vec![ToolCall {
            id: "call_abc".into(),
            function: FunctionCall { name: "shell".into(), arguments: "{\"command\":\"ls\"}".into() },
        }]),
    };
    let wire = wire_message_from(&msg);
    assert_eq!(wire.role, "assistant");
    assert!(wire.content.is_none());
    let tcs = wire.tool_calls.unwrap();
    assert_eq!(tcs.len(), 1);
    assert_eq!(tcs[0].id, "call_abc");
    assert_eq!(tcs[0].kind, "function");
    assert_eq!(tcs[0].function.name, "shell");
}

#[test]
fn chat_message_system_serde() {
    let msg = ChatMessage::System { content: "You are helpful.".into() };
    let json = render_wire_message(&wire_message_from(&msg));
    assert!(json.contains("\"role\":\"system\""));
    assert!(json.contains("You are helpful."));
    // The rendered text is well-formed JSON.
    let v: serde_json::Value = serde_json::from_str(&json).unwrap();
    assert_eq!(v["role"], "system");
}

#[test]
fn chat_message_tool_serde() {
    let msg = ChatMessage::Tool { tool_call_id: "call_123".into(), content: "result".into() };
    let json = render_wire_message(&wire_message_from(&msg));
    assert!(json.contains("\"role\":\"tool\""));
    assert!(json.contains("call_123"));
    let v: serde_json::Value = serde_json::from_str(&json).unwrap();
    assert_eq!(v["tool_call_id"], "call_123");
}

#[test]
fn tool_call_serde_roundtrip() {
    let msg = ChatMessage::Assistant {
        content: None,
        tool_calls: Some(vec![ToolCall {
            id: "call_abc".into(),
            function: FunctionCall { name: "shell".into(), arguments: "{\"command\":\"date\"}".into() },
        }]),
    };
    let json = render_wire_message(&wire_message_from(&msg));
    let v: serde_json::Value = serde_json::from_str(&json).unwrap();
    assert_eq!(v["tool_calls"][0]["id"], "call_abc");
    assert_eq!(v["tool_calls"][0]["type"], "function");
    assert_eq!(v["tool_calls"][0]["function"]["name"], "shell");

    // And the structural round trip gives the message back.
    let back = wire_round_trip(&msg).unwrap();
    match back {
        ChatMessage::Assistant { content, tool_calls } => {
            assert!(content.is_none());
            let tc = tool_calls.unwrap();
            assert_eq!(tc[0].id, "call_abc");
            assert_eq!(tc[0].function.name, "shell");
            assert_eq!(tc[0].function.arguments, "{\"command\":\"date\"}");
        },
        _ => panic!("wrong variant after round trip"),
    }
}

#[test]
fn assistant_message_skips_none_fields() {
    let msg = ChatMessage::Assistant { content: Some("hello".into()), tool_calls: None };
    let json = render_wire_message(&wire_message_from(&msg));
    assert!(!json.contains("tool_calls"));
    let v: serde_json::Value = serde_json::from_str(&json).unwrap();
    assert_eq!(v["content"], "hello");
}

#[test]
fn serialize_then_deserialize_is_identity_for_all_variants() {
    let call = ToolCall {
        id: "id-1".into(),
        function: FunctionCall { name: "echo".into(), arguments: "{\"a\":1}".into() },
    };
    let messages = vec![
        ChatMessage::System { content: "sys \"quoted\" and \\ backslash\nnewline".into() },
        ChatMessage::User { content: "你好 user".into() },
        ChatMessage::Assistant { content: Some("text".into()), tool_calls: Some(vec![call]) },
        ChatMessage::Assistant { content: None, tool_calls: None },
        ChatMessage::Tool { tool_call_id: "id-1".into(), content: "out".into() },
    ];
    for msg in &messages {
        let back = wire_round_trip(msg).unwrap();
        let a = format!("{:?}", msg);
        let b = format!("{:?}", back);
        assert_eq!(a, b);
        // The rendered JSON parses back with serde too.
        let json = render_wire_message(&wire_message_from(msg));
        let _: serde_json::Value = serde_json::from_str(&json).unwrap();
    }
}

#[test]
fn decode_rejects_unknown_roles() {
    let mut w = wire_message_from(&ChatMessage::User { content: "x".into() });
    w.role = "narrator".into();
    assert!(chat_message_from_wire(&w).is_err());
}

#[test]
fn response_with_tool_calls_maps_to_tool_use() {
    let msg = WireResponseMessage {
        content: None,
        tool_calls: Some(vec![WireToolCall {
            id: "call_abc123".into(),
            kind: "function".into(),
            function: WireFunctionCall {
                name: "shell".into(),
                arguments: "{\"command\":\"date\"}".into(),
            },
        }]),
    };
    match response_from_message(msg).unwrap() {
        jarvis::chat::ChatResponse::ToolUse { tool_calls, text } => {
            assert_eq!(tool_calls.len(), 1);
            assert_eq!(tool_calls[0].id, "call_abc123");
            assert_eq!(tool_calls[0].function.name, "shell");
            assert!(tool_calls[0].function.arguments.contains("date"));
            assert!(text.is_none());
        },
        _ => panic!("expected tool use"),
    }
}

#[test]
fn response_with_tool_calls_and_text_keeps_preamble() {
    let msg = WireResponseMessage {
        content: Some("Let me check.".into()),
        tool_calls: Some(vec![WireToolCall {
            id: "call_1".into(),
            kind: "function".into(),
            function: WireFunctionCall {
                name: "shell".into(),
                arguments: "{\"command\":\"date\"}".into(),
            },
        }]),
    };
    match response_from_message(msg).unwrap() {
        jarvis::chat::ChatResponse::ToolUse { text, .. } => {
            assert_eq!(text.as_deref(), Some("Let me check."));
        },
        _ => panic!("expected tool use"),
    }
}

#[test]
fn response_without_calls_is_text() {
    let msg = WireResponseMessage { content: Some("Hello from Venice!".into()), tool_calls: None };
    match response_from_message(msg).unwrap() {
        jarvis::chat::ChatResponse::Text(t) => assert_eq!(t, "Hello from Venice!"),
        _ => panic!("expected text"),
    }
    let empty = WireResponseMessage { content: None, tool_calls: Some(Vec::new()) };
    assert!(response_from_message(empty).is_err());
}

#[test]
fn deepseek_arguments_as_object_deserializes() {
    // DeepSeek may return arguments as an object instead of a string.
    let value: serde_json::Value = serde_json::from_str("{\"command\":\"date\"}").unwrap();
    let normalized = jarvis::jsonio::normalize_wire_arguments(&value);
    let parsed: serde_json::Value = serde_json::from_str(&normalized).unwrap();
    assert_eq!(parsed["command"], "date");

    // A string value passes through verbatim.
    let string_value: serde_json::Value = serde_json::from_str("\"{\\\"a\\\":1}\"").unwrap();
    assert_eq!(jarvis::jsonio::normalize_wire_arguments(&string_value), "{\"a\":1}");
}

#[test]
fn reparsing_normalized_arguments_is_semantically_identity() {
    let value: serde_json::Value =
        serde_json::from_str("{\"b\":[1,2,{\"c\":null}],\"a\":\"x\"}").unwrap();
    let again = jarvis::jsonio::reparse_json_value(&value).unwrap();
    assert_eq!(value, again);
    assert_eq!(value.to_string(), again.to_string());
}

#[test]
fn responses_extracts_top_level_output_text() {
    let response = ResponsesBody {
        output: vec![],
        output_text: Some("Hello from top-level".into()),
    };
    assert_eq!(extract_responses_text(&response).as_deref(), Some("Hello from top-level"));
}

#[test]
fn responses_extracts_nested_output_text() {
    let response = ResponsesBody {
        output: vec![ResponsesOutput {
            content: vec![ResponsesContent {
                kind: Some("output_text".into()),
                text: Some("Hello from nested".into()),
            }],
        }],
        output_text: None,
    };
    assert_eq!(extract_responses_text(&response).as_deref(), Some("Hello from nested"));
}

#[test]
fn responses_extracts_any_text_as_fallback() {
    let response = ResponsesBody {
        output: vec![ResponsesOutput {
            content: vec![ResponsesContent {
                kind: Some("message".into()),
                text: Some("Fallback text".into()),
            }],
        }],
        output_text: None,
    };
    assert_eq!(extract_responses_text(&response).as_deref(), Some("Fallback text"));
}

#[test]
fn first_nonempty_trims_and_drops_blanks() {
    assert_eq!(first_nonempty(Some("  hi  ")).as_deref(), Some("hi"));
    assert_eq!(first_nonempty(Some("   ")), None);
    assert_eq!(first_nonempty(None), None);
}

#[test]
fn retry_delays_double_and_cap() {
    let policy = jarvis::wire::RetryPolicy { max_retries: 6, base_delay_ms: 500 };
    assert_eq!(policy.retry_delay_ms(0), Some(500));
    assert_eq!(policy.retry_delay_ms(1), Some(1000));
    assert_eq!(policy.retry_delay_ms(2), Some(2000));
    assert_eq!(policy.retry_delay_ms(6), None);

    let big = jarvis::wire::RetryPolicy { max_retries: 20, base_delay_ms: 10000 };
    assert_eq!(big.retry_delay_ms(3), Some(30000));
}

#[test]
fn single_turn_fallback_extracts_system_and_last_user() {
    let history = vec![
        ChatMessage::System { content: "sys".into() },
        ChatMessage::User { content: "first".into() },
        ChatMessage::Assistant { content: Some("reply".into()), tool_calls: None },
        ChatMessage::User { content: "latest".into() },
    ];
    let (system, user) = jarvis::wire::single_turn_fallback(&history);
    assert_eq!(system.as_deref(), Some("sys"));
    assert_eq!(user, "latest");

    let bare = vec![ChatMessage::Assistant { content: None, tool_calls: None }];
    let (none_sys, empty_user) = jarvis::wire::single_turn_fallback(&bare);
    assert!(none_sys.is_none());
    assert_eq!(empty_user, "");
}
