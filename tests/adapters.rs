use zcode::cli::parse_provider;
use zcode::config::{get_config_value, select_api_key, select_provider};
use zcode::gemini::{chat_outcome as gemini_outcome, generate_request, message_to_contents};
use zcode::json::JsonValue;
use zcode::message::{begin_turn, AgentProvider, Message, ToolCall};
use zcode::openai::{chat_outcome, chat_request, completion_outcome, completion_request, AgentConfig};

fn text_of(v: Option<&JsonValue>) -> String {
    match v {
        Some(JsonValue::Str(s)) => s.clone(),
        other => panic!("expected a string, got {:?}", other),
    }
}

#[test]
fn provider_names() {
    assert_eq!(parse_provider("OpenAI"), Ok(AgentProvider::OpenAi));
    assert_eq!(parse_provider("gpt"), Ok(AgentProvider::OpenAi));
    assert_eq!(parse_provider("GEMINI"), Ok(AgentProvider::Gemini));
    assert_eq!(
        parse_provider("llama"),
        Err("unknown provider: 'llama'. use 'openai' or 'gemini'".to_string())
    );
    assert_eq!("gemini".parse::<AgentProvider>(), Ok(AgentProvider::Gemini));
}

#[test]
fn config_values() {
    let cfg = "# settings\nprovider = \"gemini\"\r\napi_key=sk-one\n  gemini_api_key = ' x '\nempty = \"\"\n";
    assert_eq!(get_config_value(cfg, "provider").as_deref(), Some("gemini"));
    assert_eq!(get_config_value(cfg, "api_key").as_deref(), Some("sk-one"));
    assert_eq!(get_config_value(cfg, "gemini_api_key").as_deref(), Some("' x '"));
    assert_eq!(get_config_value(cfg, "empty"), None);
    assert_eq!(get_config_value(cfg, "missing"), None);
    assert_eq!(get_config_value("a=1=2", "a").as_deref(), Some("1"));
}

#[test]
fn api_key_precedence() {
    let cfg = "OPENAI_API_KEY = from-env-name\napi_key = from-key\n";
    assert_eq!(
        select_api_key(AgentProvider::OpenAi, Some("env".to_string()), Some(cfg)).as_deref(),
        Some("env")
    );
    assert_eq!(
        select_api_key(AgentProvider::OpenAi, Some(String::new()), Some(cfg)).as_deref(),
        Some("from-env-name")
    );
    assert_eq!(
        select_api_key(AgentProvider::OpenAi, None, Some("api_key = k2\n")).as_deref(),
        Some("k2")
    );
    assert_eq!(select_api_key(AgentProvider::Gemini, None, Some(cfg)), None);
    assert_eq!(select_api_key(AgentProvider::Gemini, None, None), None);
}

#[test]
fn provider_precedence() {
    assert_eq!(select_provider(Some("Gemini"), Some("provider = openai")), AgentProvider::Gemini);
    assert_eq!(select_provider(Some("nope"), Some("provider = gemini")), AgentProvider::Gemini);
    assert_eq!(select_provider(None, None), AgentProvider::OpenAi);
}

#[test]
fn user_input_is_appended_first() {
    let mut messages = Vec::new();
    begin_turn(&mut messages, Some("hello"));
    begin_turn(&mut messages, None);
    assert_eq!(messages.len(), 1);
    match &messages[0] {
        Message::Role { role, content } => {
            assert_eq!(role, "user");
            assert_eq!(content, "hello");
        }
        _ => panic!("expected a user turn"),
    }
}

#[test]
fn openai_request_shape() {
    let cfg = AgentConfig { model: "gpt-4o".to_string(), system_prompt: "be brief".to_string() };
    let messages = vec![
        Message::user("hi"),
        Message::Assistant {
            role: "assistant".to_string(),
            content: None,
            tool_calls: Some(vec![ToolCall::function_call("c1".into(), "list_dir".into(), "{}".into())]),
        },
    ];
    let body = chat_request(&cfg, &messages, true);
    assert_eq!(text_of(body.get("model")), "gpt-4o");
    assert_eq!(text_of(body.get("tool_choice")), "auto");
    assert!(matches!(body.get("stream"), Some(JsonValue::Bool(true))));
    match body.get("messages") {
        Some(JsonValue::Array(ms)) => {
            assert_eq!(ms.len(), 3);
            assert_eq!(text_of(ms[0].get("role")), "system");
            assert_eq!(text_of(ms[0].get("content")), "be brief");
            assert_eq!(text_of(ms[1].get("content")), "hi");
            assert!(matches!(ms[2].get("content"), Some(JsonValue::Null)));
            match ms[2].get("tool_calls") {
                Some(JsonValue::Array(cs)) => assert_eq!(text_of(cs[0].get("id")), "c1"),
                _ => panic!("missing tool calls"),
            }
        }
        _ => panic!("missing messages"),
    }
    let plain = chat_request(&cfg, &messages, false);
    assert!(plain.get("stream").is_none());
    let c = completion_request("m", "sys", "u");
    assert!(c.get("tools").is_none());
}

#[test]
fn openai_reply_outcomes() {
    let mut messages = vec![Message::user("q")];
    let err = chat_outcome(&mut messages, false, "quota").unwrap_err();
    assert_eq!(err, "API error: quota");
    assert!(chat_outcome(&mut messages, true, "{oops").is_err());
    assert_eq!(chat_outcome(&mut messages, true, "{\"choices\":[]}").unwrap_err(), "No response");
    assert_eq!(
        chat_outcome(&mut messages, true, "{\"choices\":[{}]}").unwrap_err(),
        "malformed response body"
    );
    assert_eq!(messages.len(), 1);
    let body = "{\"choices\":[{\"message\":{\"content\":\"sure\",\"tool_calls\":[{\"id\":\"t1\",\"function\":{\"name\":\"read_file\",\"arguments\":\"{\\\"path\\\":\\\"a\\\"}\"}}]}}]}";
    let resp = chat_outcome(&mut messages, true, body).unwrap();
    assert!(resp.content.is_none());
    let calls = resp.tool_calls.unwrap();
    assert_eq!(calls[0].id, "t1");
    assert_eq!(calls[0].type_, "function");
    assert_eq!(messages.len(), 2);
    let resp = chat_outcome(&mut messages, true, "{\"choices\":[{\"message\":{\"content\":\"done\",\"tool_calls\":[]}}]}").unwrap();
    assert_eq!(resp.content.as_deref(), Some("done"));
    assert!(resp.tool_calls.is_none());
    assert_eq!(completion_outcome(true, "{\"choices\":[{\"message\":{\"content\":null}}]}"), Ok(String::new()));
    assert_eq!(completion_outcome(true, "{\"choices\":[{\"message\":{\"content\":\"plan\"}}]}"), Ok("plan".to_string()));
}

#[test]
fn gemini_contents_roles() {
    let call = ToolCall::function_call("g".into(), "read_file".into(), "{\"path\":\"a\"}".into());
    let bad = ToolCall::function_call("h".into(), "list_dir".into(), "not json".into());
    let messages = vec![
        Message::user("hi"),
        Message::Assistant { role: "assistant".into(), content: Some(String::new()), tool_calls: None },
        Message::Assistant { role: "assistant".into(), content: Some("ok".into()), tool_calls: Some(vec![call, bad]) },
        Message::ToolResult { role: "tool".into(), tool_call_id: "g".into(), function_name: "read_file".into(), content: "data".into() },
    ];
    let contents = message_to_contents(&messages, Some("next"));
    assert_eq!(contents.len(), 4);
    assert_eq!(text_of(contents[0].get("role")), "user");
    assert_eq!(text_of(contents[1].get("role")), "model");
    match contents[1].get("parts") {
        Some(JsonValue::Array(ps)) => {
            assert_eq!(ps.len(), 3);
            assert_eq!(text_of(ps[0].get("text")), "ok");
            let fc = ps[1].get("functionCall").unwrap();
            assert_eq!(text_of(fc.get("name")), "read_file");
            assert_eq!(text_of(fc.get("args").unwrap().get("path")), "a");
            let fc2 = ps[2].get("functionCall").unwrap();
            assert!(matches!(fc2.get("args"), Some(JsonValue::Object(m)) if m.is_empty()));
        }
        _ => panic!("missing parts"),
    }
    assert_eq!(text_of(contents[2].get("role")), "user");
    match contents[2].get("parts") {
        Some(JsonValue::Array(ps)) => {
            let fr = ps[0].get("functionResponse").unwrap();
            assert_eq!(text_of(fr.get("name")), "read_file");
            assert_eq!(text_of(fr.get("response").unwrap().get("result")), "data");
        }
        _ => panic!("missing parts"),
    }
    assert_eq!(text_of(contents[3].get("role")), "user");
    let body = generate_request(contents, "sys");
    assert!(body.get("contents").is_some());
    assert!(body.get("generationConfig").is_some());
}

#[test]
fn gemini_reply_outcomes() {
    let mut messages = vec![Message::user("q")];
    assert_eq!(
        gemini_outcome(&mut messages, true, "200 OK", "{\"error\":{\"message\":\"bad key\"}}").unwrap_err(),
        "API error: bad key"
    );
    assert_eq!(
        gemini_outcome(&mut messages, false, "400 Bad Request", "nope").unwrap_err(),
        "API error (400 Bad Request): nope"
    );
    assert_eq!(gemini_outcome(&mut messages, true, "200 OK", "{}").unwrap_err(), "No response from model");
    assert_eq!(
        gemini_outcome(&mut messages, true, "200 OK", "{\"candidates\":[{}]}").unwrap_err(),
        "Empty candidate content"
    );
    assert_eq!(messages.len(), 1);
    let body = "{\"candidates\":[{\"content\":{\"parts\":[{\"text\":\" \"},{\"functionCall\":{\"name\":\"list_dir\",\"args\":{\"path\":\".\"}}}]}}]}";
    let resp = gemini_outcome(&mut messages, true, "200 OK", body).unwrap();
    assert!(resp.content.is_none());
    let calls = resp.tool_calls.unwrap();
    assert_eq!(calls[0].id, "gemini-1");
    assert_eq!(calls[0].function.name, "list_dir");
    assert_eq!(calls[0].function.arguments, "{\"path\":\".\"}");
    assert_eq!(messages.len(), 2);
    let resp = gemini_outcome(&mut messages, true, "200 OK", "{\"candidates\":[{\"content\":{\"parts\":[{\"text\":\"a\"},{\"text\":\"b\"}]}}]}").unwrap();
    assert_eq!(resp.content.as_deref(), Some("b"));
}
