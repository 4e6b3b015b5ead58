use jarvis::tui::{App, AppStatus, MessageRole, SlashResult};
use jarvis::wrap::wrap_text;

fn input_string(app: &App) -> String {
    app.input.iter().collect()
}

#[test]
fn test_new_app() {
    let app = App::new("openrouter", "gpt-4", "sqlite");
    assert!(app.messages.is_empty());
    assert!(app.input.is_empty());
    assert_eq!(app.cursor_pos, 0);
    assert_eq!(app.status, AppStatus::Idle);
    assert!(!app.should_quit);
}

#[test]
fn test_push_message() {
    let mut app = App::new("test", "test", "none");
    app.push_message(MessageRole::User, "hello");
    assert_eq!(app.messages.len(), 1);
    assert_eq!(app.messages[0].role, MessageRole::User);
    assert_eq!(app.messages[0].content, "hello");
}

#[test]
fn test_insert_and_delete_char() {
    let mut app = App::new("test", "test", "none");
    app.insert_char('a');
    app.insert_char('b');
    app.insert_char('c');
    assert_eq!(input_string(&app), "abc");
    assert_eq!(app.cursor_pos, 3);

    app.delete_char_before();
    assert_eq!(input_string(&app), "ab");
    assert_eq!(app.cursor_pos, 2);
}

#[test]
fn test_cursor_movement() {
    let mut app = App::new("test", "test", "none");
    app.input = "hello".chars().collect();
    app.cursor_pos = 5;

    app.move_cursor_left();
    assert_eq!(app.cursor_pos, 4);

    app.move_cursor_home();
    assert_eq!(app.cursor_pos, 0);

    app.move_cursor_end();
    assert_eq!(app.cursor_pos, 5);

    app.move_cursor_right();
    assert_eq!(app.cursor_pos, 5); // already at end
}

#[test]
fn test_submit_input() {
    let mut app = App::new("test", "test", "none");
    app.input = "  hello world  ".chars().collect();
    app.cursor_pos = 10;
    let text = app.submit_input();
    assert_eq!(text, "hello world");
    assert!(app.input.is_empty());
    assert_eq!(app.cursor_pos, 0);
}

#[test]
fn test_slash_commands() {
    assert!(matches!(App::handle_slash_command("/quit"), SlashResult::Quit));
    assert!(matches!(App::handle_slash_command("/clear"), SlashResult::Clear));
    assert!(matches!(App::handle_slash_command("/help"), SlashResult::Help));
    assert!(matches!(App::handle_slash_command("hello"), SlashResult::NoCommand));
}

#[test]
fn test_scroll() {
    let mut app = App::new("test", "test", "none");
    app.scroll_up(5);
    assert_eq!(app.scroll_offset, 5);
    app.scroll_down(3);
    assert_eq!(app.scroll_offset, 2);
    app.scroll_down(10);
    assert_eq!(app.scroll_offset, 0);
}

#[test]
fn test_spinner() {
    let mut app = App::new("test", "test", "none");
    let c0 = app.spinner_char();
    app.tick_spinner();
    let c1 = app.spinner_char();
    assert_ne!(c0, c1);
}

#[test]
fn test_unicode_input() {
    let mut app = App::new("test", "test", "none");
    app.insert_char('你');
    app.insert_char('好');
    assert_eq!(input_string(&app), "你好");
    assert_eq!(app.cursor_pos, 6); // 3 bytes each

    app.move_cursor_left();
    assert_eq!(app.cursor_pos, 3);

    app.delete_char_before();
    assert_eq!(input_string(&app), "好");
    assert_eq!(app.cursor_pos, 0);
}

#[test]
fn wrap_text_ascii() {
    // 10 chars in width 5 → 2 segments
    let result = wrap_text("abcdefghij", 5);
    assert_eq!(result, vec!["abcde", "fghij"]);
}

#[test]
fn wrap_text_cjk() {
    // Each Chinese char is 2 columns; "你好世界" = 8 columns
    let result = wrap_text("你好世界", 4);
    // 你好 = 4 cols, 世界 = 4 cols
    assert_eq!(result, vec!["你好", "世界"]);
}

#[test]
fn wrap_text_cjk_boundary() {
    // Width 5: 你(2)+好(2)=4 fits, 世(2) would be 6 → overflow
    let result = wrap_text("你好世界", 5);
    assert_eq!(result, vec!["你好", "世界"]);
}

#[test]
fn wrap_text_mixed() {
    // "Hi你好" = H(1)+i(1)+你(2)+好(2) = 6 cols
    let result = wrap_text("Hi你好", 4);
    // "Hi你" = 1+1+2 = 4, "好" = 2
    assert_eq!(result, vec!["Hi你", "好"]);
}

#[test]
fn wrap_text_empty() {
    let result = wrap_text("", 10);
    assert_eq!(result, vec![""]);
}

#[test]
fn wrap_text_no_wrap_needed() {
    let result = wrap_text("short", 80);
    assert_eq!(result, vec!["short"]);
}
