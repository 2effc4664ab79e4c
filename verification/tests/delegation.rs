use aura::children::ChildRegistry;
use aura::domain::{ChildStatus, TaskRequest};
use aura::error::AgentError;
use aura::tools::delegation::{admit_subagent, subagent_handle, AgentMessageTool, SubagentResultTool};
use aura::tools::{ScratchpadReply, ScratchpadTool};

#[test]
fn scratchpad_tool_lives_under_artifacts() {
    let tool = ScratchpadTool::new("/ws");
    assert_eq!(tool.path, "/ws/artifacts/scratchpad.json");
    assert!(tool.summary().is_none());
}

#[test]
fn scratchpad_summary_names_each_entry_with_its_byte_size() {
    let mut tool = ScratchpadTool::new("/ws");
    let r = tool.store.dispatch("set", Some("notes"), Some("héllo"), false, 7).unwrap();
    assert!(matches!(r, ScratchpadReply::Done { changed: true, .. }));
    assert_eq!(tool.summary().as_deref(), Some("notes: 6B"));
    tool.store.dispatch("set", Some("plan"), Some("x"), false, 8).unwrap();
    assert_eq!(tool.summary().as_deref(), Some("notes: 6B, plan: 1B"));
}

#[test]
fn admit_subagent_refuses_at_depth_zero() {
    let e = admit_subagent(0, Ok("work")).unwrap_err();
    assert_eq!(
        e,
        AgentError::InvalidRequest("max_depth is 0; subagent tool is not available in this context".into())
    );
}

#[test]
fn admit_subagent_checks_the_arguments() {
    assert_eq!(
        admit_subagent(2, Err("missing field `task`")).unwrap_err(),
        AgentError::InvalidArguments("subagent args: missing field `task`".into())
    );
    assert_eq!(
        admit_subagent(2, Ok(" \t\n")).unwrap_err(),
        AgentError::InvalidArguments("task must not be empty".into())
    );
    assert_eq!(admit_subagent(2, Ok("write tests")), Ok(1));
    assert_eq!(admit_subagent(1, Ok("write tests")), Ok(0));
}

#[test]
fn subagent_at_depth_one_starts_a_leaf_child() {
    let depth = admit_subagent(1, Ok("write tests")).unwrap();
    let child = TaskRequest::new_with_depth("write tests".into(), "/ws".into(), 10, depth).unwrap();
    assert_eq!(child.max_depth, 0);
    let mut reg = ChildRegistry::new();
    let id = reg.register(None, "/ws/artifacts/children/c".into(), ChildStatus::Running);
    assert_eq!(reg.len(), 1);
    assert_eq!(reg.get(&id).unwrap().status, ChildStatus::Running);
}

#[test]
fn subagent_handle_is_sorted_json() {
    let o = subagent_handle("child_7", None, "/ws/artifacts/children/child_7", None);
    assert!(o.success);
    assert_eq!(
        o.content,
        r#"{"child_id":"child_7","model":"parent","name":"child_7","session_dir":"/ws/artifacts/children/child_7","status":"running"}"#
    );
    let o = subagent_handle("c", Some("say \"hi\""), "/d", Some("m1"));
    assert_eq!(o.content, r#"{"child_id":"c","model":"m1","name":"say \"hi\"","session_dir":"/d","status":"running"}"#);
}

#[test]
fn agent_message_is_delivered_to_a_known_child() {
    let mut reg = ChildRegistry::new();
    let id = reg.register(Some("w".into()), "/tmp/w".into(), ChildStatus::Running);
    let tool = AgentMessageTool::new();
    let out = tool.send(&mut reg, Ok((id.0.clone(), "hello".into()))).unwrap();
    assert!(out.success);
    assert_eq!(out.content, format!("Message sent to child {}", id.0));
}

#[test]
fn agent_message_refusals() {
    let mut reg = ChildRegistry::new();
    let tool = AgentMessageTool::new();
    assert_eq!(
        tool.send(&mut reg, Ok(("  ".into(), "x".into()))).unwrap_err(),
        AgentError::InvalidArguments("recipient (to) must not be empty".into())
    );
    assert_eq!(
        tool.send(&mut reg, Ok(("child_404".into(), "x".into()))).unwrap_err(),
        AgentError::InvalidRequest("child agent not found: child_404".into())
    );
    assert_eq!(
        tool.send(&mut reg, Err("missing field `to`".into())).unwrap_err(),
        AgentError::InvalidArguments("agent_message args: missing field `to`".into())
    );
}

#[test]
fn subagent_result_reports_status_and_result() {
    let mut reg = ChildRegistry::new();
    let id = reg.register(Some("w".into()), "/tmp/w".into(), ChildStatus::Running);
    let tool = SubagentResultTool::new();
    let out = tool.fetch(&reg, Ok(id.0.clone())).unwrap();
    assert_eq!(out.content, format!(r#"{{"child_id":"{}","name":"w","result":null,"status":"running"}}"#, id.0));
    reg.set_result(&id, "all \"done\"".into());
    let out = tool.fetch(&reg, Ok(id.0.clone())).unwrap();
    assert_eq!(
        out.content,
        format!(r#"{{"child_id":"{}","name":"w","result":"all \"done\"","status":"completed"}}"#, id.0)
    );
}

#[test]
fn subagent_result_refusals() {
    let reg = ChildRegistry::new();
    let tool = SubagentResultTool::new();
    assert_eq!(
        tool.fetch(&reg, Ok("".into())).unwrap_err(),
        AgentError::InvalidArguments("child_id must not be empty".into())
    );
    assert_eq!(
        tool.fetch(&reg, Ok("child_1".into())).unwrap_err(),
        AgentError::InvalidRequest("child agent not found: child_1".into())
    );
    assert_eq!(
        tool.fetch(&reg, Err("invalid type".into())).unwrap_err(),
        AgentError::InvalidArguments("subagent_result args: invalid type".into())
    );
}
