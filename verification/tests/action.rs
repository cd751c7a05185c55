use veridion::action::{actions, ActionRequest, AttributeValue, Context, Subject};

#[test]
fn builder_sets_fields() {
    let request = ActionRequest::new(actions::EXEC, "ls")
        .subject(Subject::new("jarvis").with_role("agent"))
        .attr("repo", "veridion")
        .attr("count", 3i64);

    assert_eq!(request.action, "exec");
    assert_eq!(request.resource, "ls");
    assert!(request.subject.has_role("agent"));
    assert_eq!(
        request.context.get("repo").and_then(AttributeValue::as_text),
        Some("veridion")
    );
    assert_eq!(
        request.context.get("count").and_then(AttributeValue::as_integer),
        Some(3)
    );
}

#[test]
fn attribute_contains_matches_list_and_text() {
    let list = AttributeValue::from(vec!["a".to_string(), "b".to_string()]);
    assert!(list.contains("a"));
    assert!(!list.contains("c"));

    let text = AttributeValue::from("hello");
    assert!(text.contains("hello"));
    assert!(!text.contains("world"));
}

#[test]
fn default_subject_is_unknown_without_roles() {
    let request = ActionRequest::new(actions::FS_READ, "README.md");
    assert_eq!(request.subject.id, "unknown");
    assert!(request.subject.roles.is_empty());
    assert_eq!(request.subject.on_behalf_of, None);
    assert!(request.context.get("anything").is_none());
}

#[test]
fn on_behalf_of_records_principal() {
    let subject = Subject::new("jarvis").with_role("agent").on_behalf_of("alice");
    assert_eq!(subject.on_behalf_of.as_deref(), Some("alice"));
    assert!(subject.has_role("agent"));
    assert!(!subject.has_role("admin"));
}

#[test]
fn context_with_replaces_existing_attribute() {
    let ctx = Context::new().with("env", "dev").with("zone", 1i64).with("env", "prod");
    assert_eq!(ctx.get("env").and_then(AttributeValue::as_text), Some("prod"));
    assert_eq!(ctx.get("zone").and_then(AttributeValue::as_integer), Some(1));
    assert!(ctx.get("missing").is_none());
    let copy = ctx.clone();
    assert_eq!(copy, ctx);
}

#[test]
fn attribute_accessors_reject_other_kinds() {
    let flag = AttributeValue::from(true);
    assert_eq!(flag.as_bool(), Some(true));
    assert_eq!(flag.as_text(), None);
    assert_eq!(flag.as_integer(), None);
    assert!(!flag.contains("true"));
    let n = AttributeValue::from(-7i64);
    assert_eq!(n.as_integer(), Some(-7));
    assert_eq!(n.as_bool(), None);
}

#[test]
fn action_constants_have_their_verbs() {
    assert_eq!(actions::EXEC, "exec");
    assert_eq!(actions::FS_READ, "fs.read");
    assert_eq!(actions::FS_WRITE, "fs.write");
    assert_eq!(actions::FS_EDIT, "fs.edit");
    assert_eq!(actions::AGENT_DELEGATE, "agent.delegate");
    assert_eq!(actions::NET_REMOTE, "net.remote");
    assert_eq!(actions::MEMORY_REMEMBER, "memory.remember");
}
