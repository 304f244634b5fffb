use zcode::executor::{
    command_result, created_directory_message, created_file_message, listing_result, plan_call,
    tool_result_text, truncate_args, Executor, ToolOp,
};
use zcode::message::{Message, ToolCall};
use zcode::pipeline::{prompt_of_line, ToolRound};
use zcode::plan::extract_json;
use zcode::tools::{gemini_tool_defs, tool_defs};
use zcode::json::JsonValue;

fn call(name: &str, args: &str) -> ToolCall {
    ToolCall::function_call("id1".to_string(), name.to_string(), args.to_string())
}

#[test]
fn create_file_request() {
    let op = plan_call(&call("create_file", "{\"path\":\"a.txt\",\"content\":\"hi\"}")).unwrap();
    match op {
        ToolOp::WriteFile { path, content } => {
            assert_eq!(path, "a.txt");
            assert_eq!(content, "hi");
            assert_eq!(created_file_message(&path), "Created a.txt");
        }
        other => panic!("unexpected {:?}", other),
    }
}

#[test]
fn run_command_echo() {
    let op = plan_call(&call("run_command", "{\"command\":\"echo foo\"}")).unwrap();
    match op {
        ToolOp::RunCommand { command } => assert_eq!(command, "echo foo"),
        other => panic!("unexpected {:?}", other),
    }
    let r = command_result("foo\n".to_string(), "", true, "exit status: 0");
    assert_eq!(r, "foo\n");
    assert!(!r.contains("stderr:"));
    assert!(!r.contains("exit code:"));
}

#[test]
fn run_command_failure_texts() {
    let r = command_result("out".to_string(), "bad", false, "exit status: 2");
    assert_eq!(r, "out\nstderr: bad\nexit code: exit status: 2");
}

#[test]
fn unknown_tool_is_a_result_not_a_failure() {
    let c = call("frobnicate", "{}");
    let outcome = plan_call(&c).map(|_| String::new());
    assert_eq!(outcome, Err("Unknown tool: frobnicate".to_string()));
    let mut messages: Vec<Message> = Vec::new();
    let resp = zcode::message::AgentResponse { content: None, tool_calls: Some(vec![c]) };
    let mut round = ToolRound::of_response(resp).unwrap();
    assert!(round.has_next());
    round.record(&mut messages, outcome);
    assert!(!round.has_next());
    match &messages[0] {
        Message::ToolResult { role, tool_call_id, function_name, content } => {
            assert_eq!(role, "tool");
            assert_eq!(tool_call_id, "id1");
            assert_eq!(function_name, "frobnicate");
            assert_eq!(content, "Error: Unknown tool: frobnicate");
        }
        _ => panic!("expected a tool result"),
    }
}

#[test]
fn argument_errors() {
    assert_eq!(plan_call(&call("read_file", "{}")).unwrap_err(), "Missing path");
    assert_eq!(plan_call(&call("write_file", "{\"path\":\"p\"}")).unwrap_err(), "Missing content");
    assert_eq!(plan_call(&call("run_command", "{\"cmd\":\"ls\"}")).unwrap_err(), "Missing command");
    assert_eq!(plan_call(&call("create_directory", "[]")).unwrap_err(), "Missing path");
    assert!(plan_call(&call("read_file", "{\"path\":")).is_err());
    assert_eq!(tool_result_text(Err("Missing path".to_string())), "Error: Missing path");
    assert_eq!(tool_result_text(Ok("fine".to_string())), "fine");
}

#[test]
fn list_dir_defaults_to_root() {
    match plan_call(&call("list_dir", "{}")).unwrap() {
        ToolOp::ListDir { path } => assert_eq!(path, "."),
        other => panic!("unexpected {:?}", other),
    }
    match plan_call(&call("create_directory", "{\"path\":\"d/e\"}")).unwrap() {
        ToolOp::CreateDir { path } => assert_eq!(created_directory_message(&path), "Created directory d/e"),
        other => panic!("unexpected {:?}", other),
    }
}

#[test]
fn listing_is_sorted_whatever_the_order() {
    let a = listing_result(vec!["b.txt".to_string(), "a.txt".to_string(), "C".to_string(), "ä".to_string()]);
    let b = listing_result(vec!["ä".to_string(), "C".to_string(), "a.txt".to_string(), "b.txt".to_string()]);
    assert_eq!(a, "C\na.txt\nb.txt\nä");
    assert_eq!(a, b);
    assert_eq!(listing_result(Vec::new()), "");
}

#[test]
fn argument_previews() {
    assert_eq!(truncate_args("{\"command\":\"cargo build\"}", "run_command").as_deref(), Some("cargo build"));
    assert_eq!(truncate_args("{\"path\":\"src/a.rs\"}", "read_file").as_deref(), Some("path: src/a.rs"));
    assert_eq!(truncate_args("{\"path\":\"src\"}", "create_directory"), None);
    assert_eq!(truncate_args("not json", "read_file"), None);
}

#[test]
fn fenced_plan_is_found_like_plain() {
    let plain = "{\"summary\":\"s\"}";
    assert_eq!(extract_json(plain).as_deref(), Some(plain));
    assert_eq!(extract_json("```json\n{\"summary\":\"s\"}\n```").as_deref(), Some(plain));
    assert_eq!(extract_json("```\n{\"summary\":\"s\"}\n```").as_deref(), Some(plain));
    assert_eq!(extract_json("  ```js {\"summary\":\"s\"} ```  ").as_deref(), Some(plain));
    assert_eq!(extract_json("```json\n{\"summary\":\"s\"}"), None);
    assert_eq!(extract_json("```json5\n{\"summary\":\"s\"}\n```").as_deref(), Some(plain));
    assert_eq!(extract_json("```c++\n{\"summary\":\"s\"}\n```").as_deref(), Some(plain));
    assert_eq!(extract_json(" \n```JSON{\"summary\":\"s\"}```\n ").as_deref(), Some(plain));
}

#[test]
fn prompt_lines() {
    assert_eq!(prompt_of_line("  add tests \n").as_deref(), Some("add tests"));
    assert_eq!(prompt_of_line(" \t\n"), None);
}

#[test]
fn six_tools_in_both_shapes() {
    let names = ["create_file", "read_file", "write_file", "list_dir", "run_command", "create_directory"];
    let openai = tool_defs();
    let gemini = gemini_tool_defs();
    assert_eq!(openai.len(), 6);
    assert_eq!(gemini.len(), 6);
    for i in 0..6 {
        match openai[i].get("type") {
            Some(JsonValue::Str(t)) => assert_eq!(t, "function"),
            _ => panic!("missing type"),
        }
        let f = openai[i].get("function").unwrap();
        match f.get("name") {
            Some(JsonValue::Str(n)) => assert_eq!(n, names[i]),
            _ => panic!("missing name"),
        }
        match gemini[i].get("name") {
            Some(JsonValue::Str(n)) => assert_eq!(n, names[i]),
            _ => panic!("missing name"),
        }
        assert!(gemini[i].get("type").is_none());
    }
    let params = openai[0].get("function").unwrap().get("parameters").unwrap();
    match params.get("required") {
        Some(JsonValue::Array(r)) => {
            assert_eq!(r.len(), 2);
            assert!(matches!(&r[0], JsonValue::Str(s) if s == "path"));
            assert!(matches!(&r[1], JsonValue::Str(s) if s == "content"));
        }
        _ => panic!("missing required"),
    }
}

#[test]
fn executor_keeps_its_root() {
    let e = Executor::new("/work".to_string());
    assert_eq!(e.root(), "/work");
}
