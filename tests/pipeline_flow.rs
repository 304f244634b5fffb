use zcode::openai::StreamTurn;
use zcode::pipeline::{list_dir_call, read_file_call, Action, Phase, Pipeline};
use zcode::message::Message;

fn turn(lines: &[&str]) -> StreamTurn {
    let mut t = StreamTurn::new();
    for l in lines {
        t.feed(l.as_bytes());
    }
    t
}

#[test]
fn context_calls() {
    let c = list_dir_call(".");
    assert_eq!(c.id, "ctx_list");
    assert_eq!(c.function.name, "list_dir");
    assert_eq!(c.function.arguments, "{\"path\":\".\"}");
    let r = read_file_call("src/main.rs");
    assert_eq!(r.id, "ctx_read");
    assert_eq!(r.function.arguments, "{\"path\":\"src/main.rs\"}");
}

#[test]
fn full_request() {
    let (mut p, a) = Pipeline::begin("add a readme");
    assert!(matches!(a, Action::ListDir { .. }));
    let a = p.layout_listed(Ok("Cargo.toml\nsrc".to_string()));
    match &a {
        Action::Complete { system, user } => {
            assert!(system.starts_with("You are a coding task planner."));
            assert_eq!(user, "User request:\nadd a readme\n\nRoot directory listing:\nCargo.toml\nsrc");
        }
        _ => panic!("expected the planning call"),
    }
    let plan = "```json\n{\"summary\":\"Write README\",\"paths_to_read\":[\"Cargo.toml\",\"missing\"]}\n```";
    let a = p.plan_replied(Ok(plan.to_string()));
    match &a {
        Action::ReadFile { call } => assert_eq!(call.function.arguments, "{\"path\":\"Cargo.toml\"}"),
        _ => panic!("expected a read"),
    }
    assert_eq!(p.todos(), &vec!["Complete the user request.".to_string()]);
    let a = p.file_read(Ok("[package]".to_string()));
    assert!(matches!(a, Action::ReadFile { .. }));
    let a = p.file_read(Err("not found".to_string()));
    assert!(matches!(a, Action::Chat));
    assert_eq!(p.phase(), Phase::Execute);
    match &p.messages()[0] {
        Message::Role { content, .. } => assert_eq!(
            content,
            "Context:\nRoot listing:\nCargo.toml\nsrc\n\n--- Cargo.toml ---\n[package]\n\nTask: Write README\n\nUser request: add a readme"
        ),
        _ => panic!("expected the opening turn"),
    }
    let t = turn(&[
        "data: {\"choices\":[{\"delta\":{\"tool_calls\":[{\"index\":0,\"id\":\"a\",\"function\":{\"name\":\"create_file\",\"arguments\":\"{}\"}},{\"index\":1,\"id\":\"b\",\"function\":{\"name\":\"read_file\",\"arguments\":\"{}\"}}]}}]}\n",
        "data: [DONE]\n",
    ]);
    let a = p.chat_finished(t);
    match &a {
        Action::RunTool { call } => assert_eq!(call.id, "a"),
        _ => panic!("expected a tool run"),
    }
    let a = p.tool_finished(Ok("Created x".to_string()));
    match &a {
        Action::RunTool { call } => assert_eq!(call.id, "b"),
        _ => panic!("expected the second tool run"),
    }
    let a = p.tool_finished(Err("Missing path".to_string()));
    assert!(matches!(a, Action::Chat));
    assert_eq!(p.messages().len(), 4);
    match &p.messages()[3] {
        Message::ToolResult { tool_call_id, content, .. } => {
            assert_eq!(tool_call_id, "b");
            assert_eq!(content, "Error: Missing path");
        }
        _ => panic!("expected a tool result"),
    }
    let t = turn(&["data: {\"choices\":[{\"delta\":{\"content\":\"All set.\"}}]}\n"]);
    let a = p.chat_finished(t);
    match &a {
        Action::Complete { system, user } => {
            assert!(system.starts_with("You are a coding assistant."));
            assert_eq!(user, "Task was: Write README. User said: add a readme");
        }
        _ => panic!("expected the final check"),
    }
    let a = p.verified(Ok("  Looks complete.\n".to_string()));
    match a {
        Action::Finish { error, message } => {
            assert!(error.is_none());
            assert_eq!(message.as_deref(), Some("Looks complete."));
        }
        _ => panic!("expected the end"),
    }
    assert_eq!(p.phase(), Phase::Finished);
}

#[test]
fn listing_failure_and_no_paths() {
    let (mut p, _) = Pipeline::begin("x");
    let a = p.layout_listed(Err("denied".to_string()));
    match &a {
        Action::Complete { user, .. } => assert!(user.ends_with("(list_dir failed: denied)")),
        _ => panic!("expected the planning call"),
    }
    let a = p.plan_replied(Ok("{\"todos\":[\"one\",\"two\"]}".to_string()));
    assert!(matches!(a, Action::Chat));
    assert_eq!(p.todos().len(), 2);
    let a = p.chat_failed();
    match &a {
        Action::Complete { user, .. } => assert_eq!(user, "Task was: Task. User said: x"),
        _ => panic!("expected the final check"),
    }
    match p.verified(Err("timeout".to_string())) {
        Action::Finish { error, message } => {
            assert_eq!(error.as_deref(), Some("timeout"));
            assert!(message.is_none());
        }
        _ => panic!("expected the end"),
    }
}

#[test]
fn plan_failures_end_the_request() {
    let (mut p, _) = Pipeline::begin("x");
    p.layout_listed(Ok(String::new()));
    match p.plan_replied(Ok("I think we should".to_string())) {
        Action::Finish { error, .. } => assert!(error.unwrap().starts_with("Failed to parse plan: ")),
        _ => panic!("expected the end"),
    }
    assert_eq!(p.phase(), Phase::Finished);
    let (mut p, _) = Pipeline::begin("x");
    p.layout_listed(Ok(String::new()));
    match p.plan_replied(Ok("[1,2]".to_string())) {
        Action::Finish { error, .. } => {
            assert_eq!(error.as_deref(), Some("Failed to parse plan: not a plan object. Raw: [1,2]"))
        }
        _ => panic!("expected the end"),
    }
    let (mut p, _) = Pipeline::begin("x");
    p.layout_listed(Ok(String::new()));
    match p.plan_replied(Err("API error: down".to_string())) {
        Action::Finish { error, .. } => assert_eq!(error.as_deref(), Some("API error: down")),
        _ => panic!("expected the end"),
    }
}

#[test]
fn at_most_eight_paths_are_read() {
    let (mut p, _) = Pipeline::begin("x");
    p.layout_listed(Ok(String::new()));
    let paths: Vec<String> = (0..10).map(|i| format!("\"f{}\"", i)).collect();
    let plan = format!("{{\"paths_to_read\":[{}]}}", paths.join(","));
    let mut a = p.plan_replied(Ok(plan));
    let mut reads = 0;
    while let Action::ReadFile { call } = &a {
        assert_eq!(call.function.arguments, format!("{{\"path\":\"f{}\"}}", reads));
        reads += 1;
        a = p.file_read(Ok(String::new()));
    }
    assert_eq!(reads, 8);
    assert!(matches!(a, Action::Chat));
}
