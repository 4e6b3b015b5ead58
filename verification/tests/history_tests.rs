use jarvis::chat::ChatMessage;
use jarvis::history::trim_history;

fn sys(s: &str) -> ChatMessage {
    ChatMessage::System { content: s.into() }
}

fn user(s: &str) -> ChatMessage {
    ChatMessage::User { content: s.into() }
}

fn assistant(s: &str) -> ChatMessage {
    ChatMessage::Assistant { content: Some(s.into()), tool_calls: None }
}

fn content_of(m: &ChatMessage) -> &str {
    match m {
        ChatMessage::System { content } => content,
        ChatMessage::User { content } => content,
        ChatMessage::Assistant { content, .. } => content.as_deref().unwrap_or(""),
        ChatMessage::Tool { content, .. } => content,
    }
}

#[test]
fn trim_history_keeps_system_message() {
    let mut history = vec![
        sys("sys"),
        user("msg1"),
        assistant("resp1"),
        user("msg2"),
        assistant("resp2"),
        user("msg3"),
        assistant("resp3"),
    ];

    trim_history(&mut history, 1);

    // Should keep: System + last User turn (msg3 + resp3)
    assert!(matches!(&history[0], ChatMessage::System { content } if content == "sys"));
    assert!(matches!(&history[1], ChatMessage::User { content } if content == "msg3"));
    assert_eq!(history.len(), 3);
}

#[test]
fn trim_history_removes_oldest_turns() {
    let mut history = vec![
        sys("sys"),
        user("msg1"),
        assistant("resp1"),
        user("msg2"),
        assistant("resp2"),
        user("msg3"),
        assistant("resp3"),
    ];

    trim_history(&mut history, 2);

    // Should keep: System + last 2 User turns (msg2+resp2, msg3+resp3)
    assert!(matches!(&history[0], ChatMessage::System { .. }));
    assert!(matches!(&history[1], ChatMessage::User { content } if content == "msg2"));
    assert!(
        matches!(&history[2], ChatMessage::Assistant { content: Some(t), .. } if t == "resp2")
    );
    assert!(matches!(&history[3], ChatMessage::User { content } if content == "msg3"));
    assert_eq!(history.len(), 5);
}

#[test]
fn trim_history_zero_means_unlimited() {
    let mut history = vec![sys("sys"), user("msg1"), user("msg2"), user("msg3")];
    let original_len = history.len();

    trim_history(&mut history, 0);

    assert_eq!(history.len(), original_len);
}

#[test]
fn trim_history_no_op_when_within_limit() {
    let mut history = vec![sys("sys"), user("msg1"), assistant("resp1")];
    let original_len = history.len();

    trim_history(&mut history, 5);

    assert_eq!(history.len(), original_len);
}

#[test]
fn trim_history_keeps_tool_clusters_with_their_turn() {
    let call = jarvis::chat::ToolCall {
        id: "call_9".into(),
        function: jarvis::chat::FunctionCall { name: "shell".into(), arguments: "{}".into() },
    };
    let mut history = vec![
        sys("sys"),
        user("old turn"),
        assistant("old answer"),
        user("do work"),
        ChatMessage::Assistant { content: None, tool_calls: Some(vec![call]) },
        ChatMessage::Tool { tool_call_id: "call_9".into(), content: "done".into() },
        assistant("worked"),
    ];

    trim_history(&mut history, 1);

    // The kept window starts at the last user turn; the assistant that
    // issued call_9 and its result survive together.
    assert_eq!(history.len(), 5);
    assert!(matches!(&history[0], ChatMessage::System { .. }));
    assert_eq!(content_of(&history[1]), "do work");
    assert!(matches!(&history[2], ChatMessage::Assistant { tool_calls: Some(c), .. } if c.len() == 1));
    assert!(matches!(&history[3], ChatMessage::Tool { tool_call_id, .. } if tool_call_id == "call_9"));
}
