use aura::domain::{Decision, Message};
use aura::model::{ModelRequest, ModelResponse, ModelStream, StreamEvent};
use aura::tool::ToolSchema;

#[test]
fn request_carries_messages_and_schemas() {
    let req = ModelRequest::new("sys".into(), vec![Message::User { content: "hi".into() }]);
    assert_eq!(req.system, "sys");
    assert_eq!(req.messages.len(), 1);
    assert!(req.tool_schemas.is_empty());
    let req = req.with_tool_schemas(vec![ToolSchema::new("read_file".into(), "Read".into())]);
    assert_eq!(req.tool_schemas.len(), 1);
    assert_eq!(req.tool_schemas[0].name, "read_file");
    assert_eq!(req.messages.len(), 1);
}

#[test]
fn a_whole_response_streams_as_one_event() {
    let resp = ModelResponse { decision: Decision::Done { summary: "ok".into() }, raw: "Done".into() };
    let stream = ModelStream::from_response(resp);
    assert_eq!(stream.len(), 1);
    assert!(!stream.is_empty());
    let events = stream.into_events();
    match &events[0] {
        StreamEvent::Complete(r) => assert_eq!(r.raw, "Done"),
        StreamEvent::Delta(_) => panic!("expected the complete answer"),
    }
}
