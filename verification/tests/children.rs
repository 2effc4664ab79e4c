use aura::children::ChildRegistry;
use aura::domain::{AgentMessage, ChildId, ChildStatus};

#[test]
fn registry_register_and_get() {
    let mut reg = ChildRegistry::new();
    let id = reg.register(Some("worker-1".into()), "/tmp/child1".to_string(), ChildStatus::Running);
    let handle = reg.get(&id).expect("child should exist");
    assert_eq!(handle.child_id, id);
    assert_eq!(handle.name, Some("worker-1".into()));
    assert_eq!(handle.status, ChildStatus::Running);
    assert!(handle.result.is_none());
}

#[test]
fn registry_set_result() {
    let mut reg = ChildRegistry::new();
    let id = reg.register(None, "/tmp/test".to_string(), ChildStatus::Running);
    reg.set_result(&id, "Task completed successfully".into());
    let handle = reg.get(&id).unwrap();
    assert_eq!(handle.status, ChildStatus::Completed);
    assert_eq!(handle.result, Some("Task completed successfully".into()));
}

#[test]
fn registry_send_and_fetch() {
    let mut reg = ChildRegistry::new();
    let id = reg.register(None, "/tmp/test".to_string(), ChildStatus::Running);
    let msg = AgentMessage { to: id.clone(), from: "parent".into(), content: "keep going".into() };
    assert!(reg.send_message(&id, msg));
    assert!(reg.delete(&id));
    assert!(!reg.delete(&id));
}

#[test]
fn registry_list_and_len() {
    let mut reg = ChildRegistry::new();
    let id1 = reg.register(Some("a".into()), "/tmp/a".to_string(), ChildStatus::Running);
    let id2 = reg.register(Some("b".into()), "/tmp/b".to_string(), ChildStatus::Running);
    assert_eq!(reg.len(), 2);
    let list = reg.list();
    let ids: Vec<&ChildId> = list.iter().map(|(id, _, _)| id).collect();
    assert!(ids.contains(&&id1));
    assert!(ids.contains(&&id2));
}

#[test]
fn registry_send_message_to_unknown_fails() {
    let mut reg = ChildRegistry::new();
    let fake_id = ChildId("nonexistent".into());
    let msg = AgentMessage { to: fake_id.clone(), from: "parent".into(), content: "hello".into() };
    assert!(!reg.send_message(&fake_id, msg));
}

#[test]
fn registry_fetch_result_after_set_result() {
    let mut reg = ChildRegistry::new();
    let id = reg.register(None, "/tmp/x".to_string(), ChildStatus::Running);
    assert_eq!(reg.fetch_result(&id), None);
    reg.set_result(&id, "done".into());
    assert_eq!(reg.fetch_result(&id), Some("done".to_string()));
    reg.set_status(&id, ChildStatus::Failed);
    assert_eq!(reg.get(&id).unwrap().status, ChildStatus::Failed);
    assert!(reg.delete(&id));
    assert!(reg.is_empty());
    assert_eq!(reg.fetch_result(&id), None);
}

#[test]
fn child_id_has_child_prefix() {
    let id = ChildId::generate();
    assert!(id.to_text().starts_with("child_"));
    assert!(id.0["child_".len()..].chars().all(|c| c.is_ascii_digit()));
}

#[test]
fn registered_ids_are_distinct() {
    let mut reg = ChildRegistry::new();
    let mut ids: Vec<ChildId> = Vec::new();
    for i in 0..50 {
        ids.push(reg.register(None, format!("/tmp/c{i}"), ChildStatus::Running));
    }
    assert_eq!(reg.len(), 50);
    for (i, a) in ids.iter().enumerate() {
        assert!(a.to_text().starts_with("child_"));
        for b in &ids[i + 1..] {
            assert_ne!(a, b);
        }
    }
}
