use jarvis::agent_loop::{
    execute_tool_calls, loop_step, register_tool, run_tool_loop, tool_result_content, Observer,
    ObserverEvent, ObserverHandle, Provider, ProviderHandle, StepOutcome, Tool, ToolEntry,
};
use jarvis::chat::{ChatMessage, ChatResponse, FunctionCall, ToolCall, ToolDefinition, ToolResult};
use jarvis::security::SecurityPolicy;

struct MockToolProvider {
    /// Responses to return in order: first call returns responses[0], etc.
    responses: Vec<ChatResponse>,
    call_count: usize,
}

impl Provider for MockToolProvider {
    fn chat_with_tools(
        &mut self,
        _messages: &Vec<ChatMessage>,
        _tools: &Vec<ToolDefinition>,
        _model: &str,
        _temperature_milli: u32,
    ) -> Result<ChatResponse, String> {
        let idx = self.call_count;
        self.call_count += 1;
        if idx < self.responses.len() {
            Ok(self.responses[idx].clone())
        } else {
            Ok(ChatResponse::Text("done".into()))
        }
    }
}

struct EchoTool;

impl Tool for EchoTool {
    fn name(&self) -> String {
        "echo".to_string()
    }
    fn description(&self) -> String {
        "Echo back the input".to_string()
    }
    fn parameters_schema(&self) -> String {
        "{\"type\":\"object\",\"properties\":{\"text\":{\"type\":\"string\"}},\"required\":[\"text\"]}".to_string()
    }
    fn execute(&self, args: &serde_json::Value) -> Result<ToolResult, String> {
        let text = args["text"].as_str().unwrap_or("(no text)");
        Ok(ToolResult { success: true, output: text.to_string(), error: None })
    }
}

struct RecordingObserver {
    tool_events: Vec<(String, bool)>,
}

impl Observer for RecordingObserver {
    fn record_event(&mut self, event: &ObserverEvent) {
        if let ObserverEvent::ToolCall { tool, success, .. } = event {
            self.tool_events.push((tool.clone(), *success));
        }
    }
}

fn observer() -> ObserverHandle<RecordingObserver> {
    ObserverHandle::new(RecordingObserver { tool_events: Vec::new() })
}

fn make_history(system: &str, user: &str) -> Vec<ChatMessage> {
    vec![
        ChatMessage::System { content: system.into() },
        ChatMessage::User { content: user.into() },
    ]
}

fn echo_call(id: &str, args: &str) -> ToolCall {
    ToolCall {
        id: id.into(),
        function: FunctionCall { name: "echo".into(), arguments: args.into() },
    }
}

fn content_of(m: &ChatMessage) -> String {
    match m {
        ChatMessage::System { content } => content.clone(),
        ChatMessage::User { content } => content.clone(),
        ChatMessage::Assistant { content, .. } => content.clone().unwrap_or_default(),
        ChatMessage::Tool { content, .. } => content.clone(),
    }
}

#[test]
fn tool_loop_text_response_returns_immediately() {
    let mut provider = ProviderHandle::new(MockToolProvider {
        responses: vec![ChatResponse::Text("Hello!".into())],
        call_count: 0,
    });
    let mut security = SecurityPolicy::default();
    let mut observer = observer();
    let tools: Vec<ToolEntry<EchoTool>> = Vec::new();
    let defs: Vec<ToolDefinition> = Vec::new();

    let mut history = make_history("system", "hello");
    let result = run_tool_loop(
        &mut provider,
        &mut history,
        &tools,
        &defs,
        "model",
        700,
        10,
        &mut security,
        &mut observer,
    )
    .unwrap();

    assert_eq!(result, "Hello!");
    assert_eq!(provider.inner.call_count, 1);
    // History should now contain: System, User, Assistant
    assert_eq!(history.len(), 3);
    assert!(
        matches!(&history[2], ChatMessage::Assistant { content: Some(t), tool_calls: None } if t == "Hello!")
    );
}

#[test]
fn tool_loop_executes_tool_and_returns_text() {
    let mut provider = ProviderHandle::new(MockToolProvider {
        responses: vec![
            ChatResponse::ToolUse {
                tool_calls: vec![echo_call("call_1", "{\"text\":\"hello world\"}")],
                text: None,
            },
            ChatResponse::Text("The echo returned: hello world".into()),
        ],
        call_count: 0,
    });
    let mut security = SecurityPolicy { max_actions_per_hour: 100, ..SecurityPolicy::default() };
    let mut observer = observer();
    let tools = vec![register_tool(EchoTool)];
    let defs: Vec<ToolDefinition> = Vec::new();

    let mut history = make_history("system", "echo something");
    let result = run_tool_loop(
        &mut provider,
        &mut history,
        &tools,
        &defs,
        "model",
        700,
        10,
        &mut security,
        &mut observer,
    )
    .unwrap();

    assert_eq!(result, "The echo returned: hello world");
    assert_eq!(provider.inner.call_count, 2);
    // Exactly one tool message answers call_1 with the echoed text.
    let tool_messages: Vec<&ChatMessage> = history
        .iter()
        .filter(|m| matches!(m, ChatMessage::Tool { .. }))
        .collect();
    assert_eq!(tool_messages.len(), 1);
    assert!(
        matches!(tool_messages[0], ChatMessage::Tool { tool_call_id, content } if tool_call_id == "call_1" && content == "hello world")
    );
}

#[test]
fn tool_loop_handles_unknown_tool() {
    let mut provider = ProviderHandle::new(MockToolProvider {
        responses: vec![
            ChatResponse::ToolUse {
                tool_calls: vec![ToolCall {
                    id: "call_1".into(),
                    function: FunctionCall {
                        name: "nonexistent_tool".into(),
                        arguments: "{}".into(),
                    },
                }],
                text: None,
            },
            ChatResponse::Text("Sorry, that tool doesn't exist.".into()),
        ],
        call_count: 0,
    });
    let mut security = SecurityPolicy { max_actions_per_hour: 100, ..SecurityPolicy::default() };
    let mut observer = observer();
    let tools: Vec<ToolEntry<EchoTool>> = Vec::new();
    let defs: Vec<ToolDefinition> = Vec::new();

    let mut history = make_history("system", "use nonexistent");
    let result = run_tool_loop(
        &mut provider,
        &mut history,
        &tools,
        &defs,
        "model",
        700,
        10,
        &mut security,
        &mut observer,
    )
    .unwrap();

    assert_eq!(result, "Sorry, that tool doesn't exist.");
    // The unknown tool produced an error tool message and consumed no budget.
    let tool_msg = history.iter().find(|m| matches!(m, ChatMessage::Tool { .. })).unwrap();
    assert!(content_of(tool_msg).contains("未知工具"));
    assert!(security.actions.is_empty());
}

#[test]
fn tool_loop_respects_max_iterations() {
    // Model returns tool calls for 3 iterations, then text on the final forced call
    let mut responses: Vec<ChatResponse> = Vec::new();
    for i in 0..3 {
        responses.push(ChatResponse::ToolUse {
            tool_calls: vec![echo_call(&format!("call_{i}"), "{\"text\":\"loop\"}")],
            text: None,
        });
    }
    // After 3 iterations, the loop hits max and forces a no-tools call — index 3
    responses.push(ChatResponse::Text("Stopped after max iterations.".into()));

    let mut provider = ProviderHandle::new(MockToolProvider { responses, call_count: 0 });
    let mut security = SecurityPolicy { max_actions_per_hour: 100, ..SecurityPolicy::default() };
    let mut observer = observer();
    let tools = vec![register_tool(EchoTool)];
    let defs: Vec<ToolDefinition> = Vec::new();

    let mut history = make_history("system", "keep looping");
    let result = run_tool_loop(
        &mut provider,
        &mut history,
        &tools,
        &defs,
        "model",
        700,
        3,
        &mut security,
        &mut observer,
    )
    .unwrap();

    assert_eq!(result, "Stopped after max iterations.");
    // Should have been called: 3 tool iterations + 1 final = 4 times
    assert_eq!(provider.inner.call_count, 4);
}

#[test]
fn conversation_history_accumulates_across_calls() {
    let mut provider = ProviderHandle::new(MockToolProvider {
        responses: vec![
            ChatResponse::Text("I'm assistant turn 1".into()),
            ChatResponse::Text("I'm assistant turn 2".into()),
        ],
        call_count: 0,
    });
    let mut security = SecurityPolicy::default();
    let mut observer = observer();
    let tools: Vec<ToolEntry<EchoTool>> = Vec::new();
    let defs: Vec<ToolDefinition> = Vec::new();

    // Start with system message only
    let mut history = vec![ChatMessage::System { content: "system".into() }];

    // First turn
    history.push(ChatMessage::User { content: "hello".into() });
    let r1 = run_tool_loop(
        &mut provider,
        &mut history,
        &tools,
        &defs,
        "model",
        700,
        10,
        &mut security,
        &mut observer,
    )
    .unwrap();
    assert_eq!(r1, "I'm assistant turn 1");
    // History: System, User("hello"), Assistant("turn 1")
    assert_eq!(history.len(), 3);

    // Second turn — history carries over
    history.push(ChatMessage::User { content: "what did I say?".into() });
    let r2 = run_tool_loop(
        &mut provider,
        &mut history,
        &tools,
        &defs,
        "model",
        700,
        10,
        &mut security,
        &mut observer,
    )
    .unwrap();
    assert_eq!(r2, "I'm assistant turn 2");
    // History: System, User, Assistant, User, Assistant = 5
    assert_eq!(history.len(), 5);
    assert!(
        matches!(&history[3], ChatMessage::User { content } if content == "what did I say?")
    );
}

#[test]
fn execute_tool_calls_rate_limit() {
    let tools = vec![register_tool(EchoTool)];
    let mut security = SecurityPolicy { max_actions_per_hour: 1, ..SecurityPolicy::default() };
    let mut observer = observer();

    let calls = vec![
        echo_call("call_1", "{\"text\":\"first\"}"),
        echo_call("call_2", "{\"text\":\"second\"}"),
    ];

    let results = execute_tool_calls(&calls, &tools, &mut security, &mut observer, 1000);

    assert_eq!(results.len(), 2);
    // First should succeed
    if let ChatMessage::Tool { content, .. } = &results[0] {
        assert_eq!(content, "first");
    } else {
        panic!("Expected Tool message");
    }
    // Second should be rate limited
    if let ChatMessage::Tool { content, .. } = &results[1] {
        assert!(content.contains("速率限制"), "Expected rate limit error, got: {content}");
    } else {
        panic!("Expected Tool message");
    }
}

#[test]
fn execute_tool_calls_bad_arguments() {
    let tools = vec![register_tool(EchoTool)];
    let mut security = SecurityPolicy { max_actions_per_hour: 100, ..SecurityPolicy::default() };
    let mut observer = observer();

    let calls = vec![echo_call("call_1", "not valid json")];

    let results = execute_tool_calls(&calls, &tools, &mut security, &mut observer, 1000);

    assert_eq!(results.len(), 1);
    if let ChatMessage::Tool { content, .. } = &results[0] {
        assert!(content.contains("参数解析失败"), "Expected parse error, got: {content}");
    } else {
        panic!("Expected Tool message");
    }
}

#[test]
fn tool_results_keep_call_order() {
    let tools = vec![register_tool(EchoTool)];
    let mut security = SecurityPolicy { max_actions_per_hour: 100, ..SecurityPolicy::default() };
    let mut observer = observer();

    let calls = vec![
        echo_call("call_a", "{\"text\":\"1\"}"),
        echo_call("call_b", "{\"text\":\"2\"}"),
        echo_call("call_c", "{\"text\":\"3\"}"),
    ];

    let results = execute_tool_calls(&calls, &tools, &mut security, &mut observer, 5);
    let ids: Vec<String> = results
        .iter()
        .map(|m| match m {
            ChatMessage::Tool { tool_call_id, .. } => tool_call_id.clone(),
            _ => panic!("Expected Tool message"),
        })
        .collect();
    assert_eq!(ids, vec!["call_a", "call_b", "call_c"]);
}

#[test]
fn memory_preamble_lists_recalled_entries() {
    let entries = vec![
        jarvis::agent_loop::MemoryEntry { key: "k1".into(), content: "likes tea".into() },
        jarvis::agent_loop::MemoryEntry { key: "k2".into(), content: "lives in Lima".into() },
    ];
    let preamble = jarvis::agent_loop::memory_preamble(&entries);
    assert_eq!(preamble, "[Memory context]\n- k1: likes tea\n- k2: lives in Lima\n\n");

    let enriched = jarvis::agent_loop::enrich_user_message(&preamble, "hello");
    assert_eq!(enriched, format!("{preamble}hello"));

    let none = jarvis::agent_loop::memory_preamble(&Vec::new());
    assert_eq!(none, "");
    assert_eq!(jarvis::agent_loop::enrich_user_message(&none, "hello"), "hello");
}

#[test]
fn rate_limited_turn_still_answers_every_call() {
    // A policy of one action an hour: the first echo runs, the second is
    // refused, and the turn still ends with a final text.
    let mut provider = ProviderHandle::new(MockToolProvider {
        responses: vec![
            ChatResponse::ToolUse {
                tool_calls: vec![
                    echo_call("call_1", "{\"text\":\"first\"}"),
                    echo_call("call_2", "{\"text\":\"second\"}"),
                ],
                text: None,
            },
            ChatResponse::Text("done for now".into()),
        ],
        call_count: 0,
    });
    let mut security = SecurityPolicy { max_actions_per_hour: 1, ..SecurityPolicy::default() };
    let mut observer = observer();
    let tools = vec![register_tool(EchoTool)];
    let defs: Vec<ToolDefinition> = Vec::new();

    let mut history = make_history("system", "echo twice");
    let result = run_tool_loop(
        &mut provider,
        &mut history,
        &tools,
        &defs,
        "model",
        700,
        10,
        &mut security,
        &mut observer,
    )
    .unwrap();

    assert_eq!(result, "done for now");
    // System, User, Assistant(tool use), Tool, Tool, Assistant(final) = 6.
    assert_eq!(history.len(), 6);
    assert_eq!(content_of(&history[3]), "first");
    assert!(content_of(&history[4]).contains("速率限制"));
}

#[test]
fn observer_hears_only_executed_calls() {
    let tools = vec![register_tool(EchoTool)];
    let mut security = SecurityPolicy { max_actions_per_hour: 100, ..SecurityPolicy::default() };
    let mut obs = observer();

    let calls = vec![
        echo_call("call_1", "{\"text\":\"ok\"}"),
        ToolCall {
            id: "call_2".into(),
            function: FunctionCall { name: "missing".into(), arguments: "{}".into() },
        },
        echo_call("call_3", "not json"),
    ];
    let _ = execute_tool_calls(&calls, &tools, &mut security, &mut obs, 7);

    // Only the first call executed; unknown-tool and bad-argument calls
    // emit nothing.
    assert_eq!(obs.inner.tool_events, vec![("echo".to_string(), true)]);
}

#[test]
fn tool_outcomes_map_to_contents() {
    let ok = tool_result_content(Ok(ToolResult {
        success: true,
        output: "fine".into(),
        error: None,
    }));
    assert_eq!(ok, "fine");

    let failed = tool_result_content(Ok(ToolResult {
        success: false,
        output: "partial".into(),
        error: Some("broke".into()),
    }));
    assert_eq!(failed, "Error: broke");

    let failed_no_detail = tool_result_content(Ok(ToolResult {
        success: false,
        output: "partial".into(),
        error: None,
    }));
    assert_eq!(failed_no_detail, "Error: partial");

    let thrown = tool_result_content(Err("exploded".into()));
    assert_eq!(thrown, "Error: exploded");
}

#[test]
fn loop_step_appends_text_and_tool_use() {
    let tools = vec![register_tool(EchoTool)];
    let mut security = SecurityPolicy { max_actions_per_hour: 100, ..SecurityPolicy::default() };
    let mut obs = observer();

    let mut history = make_history("sys", "hi");
    let done = loop_step(
        &mut history,
        ChatResponse::Text("all done".into()),
        &tools,
        &mut security,
        &mut obs,
        9,
    );
    assert!(matches!(done, StepOutcome::Done(t) if t == "all done"));
    assert_eq!(history.len(), 3);

    let mut history2 = make_history("sys", "echo");
    let cont = loop_step(
        &mut history2,
        ChatResponse::ToolUse {
            tool_calls: vec![echo_call("c1", "{\"text\":\"pong\"}")],
            text: Some("calling".into()),
        },
        &tools,
        &mut security,
        &mut obs,
        9,
    );
    assert!(matches!(cont, StepOutcome::Continue));
    // System, User, Assistant(with call), Tool("pong")
    assert_eq!(history2.len(), 4);
    assert!(matches!(&history2[3], ChatMessage::Tool { tool_call_id, content } if tool_call_id == "c1" && content == "pong"));
}
