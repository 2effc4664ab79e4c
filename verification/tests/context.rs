use aura::compaction::{compact, compacted_session, should_compact, LayeredContext};
use aura::context::{context_path, is_sensitive, truncate_messages};
use aura::domain::Message;
use aura::error::AgentError;

fn assistant(content: &str) -> Message {
    Message::assistant(content.to_string())
}

fn tool(call_id: &str, output: &str) -> Message {
    Message::Tool { call_id: call_id.to_string(), output: output.to_string(), success: true }
}

fn user(content: &str) -> Message {
    Message::User { content: content.to_string() }
}

fn assistant_content(msg: &Message) -> Option<&str> {
    match msg {
        Message::Assistant { content, .. } => Some(content),
        _ => None,
    }
}

#[test]
fn sensitive_paths_are_detected() {
    assert!(is_sensitive("/ws/.env"));
    assert!(is_sensitive("/ws/certs/server.pem"));
    assert!(is_sensitive("/home/u/.ssh/id_rsa"));
    assert!(is_sensitive("config/secrets/db.txt"));
    assert!(is_sensitive("credentials"));
    assert!(!is_sensitive("/ws/src/main.rs"));
    assert!(is_sensitive("/ws/.env.local"));
    assert!(is_sensitive("/ws/.envrc"));
    assert!(!is_sensitive("/ws/.config/notes.md"));
    assert!(!is_sensitive("/ws/env/.gitignore"));
    assert!(!is_sensitive("../x/y"));
}

#[test]
fn context_path_joins_and_refuses_sensitive() {
    assert_eq!(context_path("/ws", "src/lib.rs").unwrap(), "/ws/src/lib.rs");
    assert_eq!(
        context_path("/ws", ".env").unwrap_err(),
        AgentError::PathPolicy("sensitive path refused: /ws/.env".into())
    );
}

#[test]
fn truncation_keeps_everything_when_it_fits() {
    let msgs = vec![user("abc"), assistant("de")];
    let r = truncate_messages(msgs, 5).unwrap();
    assert_eq!(r.original_bytes, 5);
    assert_eq!(r.truncated_bytes, 5);
    assert_eq!(r.dropped, 0);
    assert_eq!(r.messages.len(), 2);
}

#[test]
fn truncation_drops_newest_assistant_first() {
    let msgs = vec![
        Message::System { content: "sys".into() },
        user("task"),
        assistant("old-answer"),
        assistant("new-answer"),
    ];
    // 3 + 4 + 10 + 10 = 27 bytes; limit 20 drops only the newest assistant message.
    let r = truncate_messages(msgs, 20).unwrap();
    assert_eq!(r.original_bytes, 27);
    assert_eq!(r.dropped, 1);
    assert_eq!(r.truncated_bytes, 17);
    assert_eq!(r.messages.len(), 3);
    assert_eq!(assistant_content(&r.messages[2]), Some("old-answer"));
}

#[test]
fn truncation_keeps_only_five_recent_tools() {
    let mut msgs = vec![user("u")];
    for i in 0..7 {
        msgs.push(tool(&format!("t-{i}"), "xx"));
    }
    // 1 + 14 bytes > 10: the two oldest tool results go, and both count as dropped.
    let r = truncate_messages(msgs, 10).unwrap();
    assert_eq!(r.dropped, 2);
    assert_eq!(r.messages.len(), 6);
    assert_eq!(r.truncated_bytes, 11);
    match &r.messages[1] {
        Message::Tool { call_id, .. } => assert_eq!(call_id, "t-2"),
        _ => panic!("expected a tool message"),
    }
}

#[test]
fn test_should_compact_below_threshold() {
    let msgs: Vec<Message> = (0..5).map(|i| assistant(&format!("step {i}"))).collect();
    assert!(!should_compact(&msgs, 100));
}

#[test]
fn test_should_compact_above_threshold() {
    let msgs: Vec<Message> = (0..15).map(|i| assistant(&format!("step {i} done something longer"))).collect();
    assert!(should_compact(&msgs, 100));
}

#[test]
fn test_should_compact_zero_max() {
    assert!(!should_compact(&[assistant("hello")], 0));
}

#[test]
fn test_compact_no_early_messages() {
    let msgs: Vec<Message> = (0..3).map(|i| assistant(&format!("step {i}"))).collect();
    let ctx = compact(&msgs, None, 100, 10, false);
    assert!(ctx.history_summary.is_none());
    assert_eq!(ctx.core_window.len(), 3);
}

#[test]
fn test_compact_splits_core_and_early() {
    let msgs: Vec<Message> = (0..15).map(|i| assistant(&format!("step {i}"))).collect();
    let ctx = compact(&msgs, None, 100, 10, false);
    assert_eq!(ctx.core_window.len(), 10);
    assert!(ctx.history_summary.is_some());
    let summary = ctx.history_summary.unwrap();
    assert!(summary.contains("Earlier conversation summary"));
    assert!(summary.contains("step 0"));
}

#[test]
fn test_compact_already_summarized() {
    let msgs: Vec<Message> = (0..15).map(|i| assistant(&format!("step {i}"))).collect();
    let ctx = compact(&msgs, None, 100, 10, true);
    assert!(ctx.history_summary.is_some());
    let summary = ctx.history_summary.unwrap();
    assert!(summary.contains("already summarized"));
}

#[test]
fn test_compact_scratchpad_injected() {
    let msgs = vec![assistant("working")];
    let ctx = compact(&msgs, Some("file_a: 200B, file_b: 150B"), 100, 10, false);
    assert!(ctx.scratchpad_summary.is_some());
    assert!(ctx.scratchpad_summary.unwrap().contains("file_a"));
}

#[test]
fn test_into_model_messages_order() {
    let msgs: Vec<Message> = (0..12).map(|i| assistant(&format!("step {i}"))).collect();
    let ctx = compact(&msgs, Some("scratch: notes"), 100, 10, false);
    let flat = ctx.into_model_messages();
    assert!(matches!(flat[0], Message::Assistant { .. }));
    assert!(assistant_content(&flat[0]).unwrap().contains("Earlier conversation"));
    assert!(matches!(flat[1], Message::Assistant { .. }));
    assert!(assistant_content(&flat[1]).unwrap().contains("Working memory"));
}

#[test]
fn test_layered_context_message_count() {
    let msgs: Vec<Message> = (0..12).map(|i| assistant(&format!("step {i}"))).collect();
    let ctx = compact(&msgs, Some("scratch"), 100, 10, false);
    assert_eq!(ctx.message_count(), 12);
}

#[test]
fn test_tool_message_in_summary() {
    let msgs = vec![tool("grep_files-0", "Found 5 matches in 3 files"), assistant("I found the matches")];
    let ctx = compact(&msgs, None, 100, 10, false);
    assert!(ctx.history_summary.is_none());
    assert_eq!(ctx.core_window.len(), 2);
}

#[test]
fn test_multibyte_tool_output_no_panic() {
    let chinese = "汉".repeat(30);
    let msgs = vec![tool("run_command-0", &chinese), assistant("ok")];
    let ctx = compact(&msgs, None, 100, 1, false);
    let summary = ctx.history_summary.expect("tool message should be in early messages");
    assert!(summary.contains("run_command"), "summary: {summary}");
    assert!(summary.contains('…'));
}

#[test]
fn test_compaction_trigger_ratio() {
    let at_threshold: Vec<Message> = (0..8).map(|i| assistant(&format!("step {i} done!"))).collect();
    assert!(should_compact(&at_threshold, 100));
    let below: Vec<Message> = (0..7).map(|i| assistant(&format!("step {i}"))).collect();
    assert!(!should_compact(&below, 100));
}

#[test]
fn test_summarize_empty() {
    let ctx = compact(&[], None, 100, 10, false);
    assert!(ctx.history_summary.is_none());
    assert!(ctx.core_window.is_empty());
}

#[test]
fn test_into_model_messages_empty_core_window() {
    let msgs: Vec<Message> = (0..12).map(|i| assistant(&format!("step {i}"))).collect();
    let ctx = compact(&msgs, Some("scratch"), 100, 20, false);
    assert!(ctx.history_summary.is_none());
    let flat = ctx.into_model_messages();
    assert_eq!(flat.len(), 13);
}

#[test]
fn summary_lines_follow_the_rules() {
    let long = "x".repeat(130);
    let msgs = vec![
        Message::System { content: "sys".into() },
        user(&long),
        tool("read_file-3", "short"),
        tool("plain", &"y".repeat(90)),
        assistant("a"),
    ];
    let ctx = compact(&msgs, None, 100, 1, false);
    let expected = format!(
        "## Earlier conversation summary (4 messages)\n[system] sys\n[user] {long}…\n[read_file] short\n[plain] {}…\n---",
        "y".repeat(80)
    );
    assert_eq!(ctx.history_summary.unwrap(), expected);
}

#[test]
fn working_memory_message_text() {
    let ctx = LayeredContext {
        scratchpad_summary: Some("k: 1B".into()),
        core_window: Vec::new(),
        history_summary: None,
        core_window_size: 10,
    };
    let flat = ctx.into_model_messages();
    assert_eq!(
        assistant_content(&flat[0]),
        Some("## Working memory\nk: 1B\n---\nUse this context as needed.")
    );
}

#[test]
fn compaction_written_back_keeps_the_system_prompt() {
    let session = vec![
        Message::System { content: "sys".into() },
        Message::User { content: "task".into() },
    ];
    let layers = vec![Message::assistant("summary".into()), Message::User { content: "recent".into() }];
    let r = compacted_session(&session, layers);
    assert_eq!(r.len(), 3);
    assert!(matches!(&r[0], Message::System { content } if content == "sys"));
    assert!(matches!(&r[1], Message::Assistant { content, .. } if content == "summary"));
    let no_system = vec![Message::User { content: "task".into() }];
    let r = compacted_session(&no_system, vec![Message::assistant("s".into())]);
    assert_eq!(r.len(), 1);
}
