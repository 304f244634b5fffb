use zcode::message::{AgentResponse, Message};
use zcode::openai::StreamTurn;
use zcode::stream::{Accumulator, SseDecoder, StreamDelta, ToolCallDelta};

fn feed_all(chunks: &[&str]) -> (Vec<String>, AgentResponse, Vec<Message>) {
    let mut turn = StreamTurn::new();
    let mut shown = Vec::new();
    for c in chunks {
        shown.extend(turn.feed(c.as_bytes()));
    }
    let mut messages = Vec::new();
    let resp = turn.finish(&mut messages);
    (shown, resp, messages)
}

#[test]
fn two_text_chunks_then_sentinel() {
    let (shown, resp, messages) = feed_all(&[
        "data: {\"choices\":[{\"delta\":{\"content\":\"Hel\"}}]}\n",
        "data: {\"choices\":[{\"delta\":{\"content\":\"lo\"}}]}\n",
        "data: [DONE]\n",
    ]);
    assert_eq!(shown, vec!["Hel".to_string(), "lo".to_string()]);
    assert_eq!(resp.content.as_deref(), Some("Hello"));
    assert!(resp.tool_calls.is_none());
    assert_eq!(messages.len(), 1);
    match &messages[0] {
        Message::Assistant { role, content, tool_calls } => {
            assert_eq!(role, "assistant");
            assert_eq!(content.as_deref(), Some("Hello"));
            assert!(tool_calls.is_none());
        }
        _ => panic!("expected an assistant turn"),
    }
}

#[test]
fn lines_split_across_chunks() {
    let (shown, resp, _) = feed_all(&[
        "data: {\"choices\":[{\"del",
        "ta\":{\"content\":\"Hi\"}}]}\n\ndata: {\"choices\":[{\"delta\":{\"content\":\" there\"}}]}",
        "\n",
    ]);
    assert_eq!(shown, vec!["Hi".to_string(), " there".to_string()]);
    assert_eq!(resp.content.as_deref(), Some("Hi there"));
}

#[test]
fn tool_call_fragments_are_merged() {
    let (_, resp, _) = feed_all(&[
        "data: {\"choices\":[{\"delta\":{\"tool_calls\":[{\"index\":0,\"id\":\"call_abc\",\"function\":{\"name\":\"read_file\",\"arguments\":\"\"}}]}}]}\n",
        "data: {\"choices\":[{\"delta\":{\"tool_calls\":[{\"index\":0,\"function\":{\"arguments\":\"{\\\"pa\"}}]}}]}\n",
        "data: {\"choices\":[{\"delta\":{\"tool_calls\":[{\"index\":0,\"id\":\"\",\"function\":{\"arguments\":\"th\\\":\\\"x\\\"}\"}}]}}]}\n",
        "data: [DONE]\n",
    ]);
    let calls = resp.tool_calls.expect("tool calls");
    assert_eq!(calls.len(), 1);
    assert_eq!(calls[0].id, "call_abc");
    assert_eq!(calls[0].type_, "function");
    assert_eq!(calls[0].function.name, "read_file");
    assert_eq!(calls[0].function.arguments, "{\"path\":\"x\"}");
}

#[test]
fn later_non_empty_id_and_name_win() {
    let mut acc = Accumulator::new();
    let d = |id: Option<&str>, name: Option<&str>, args: Option<&str>| StreamDelta {
        content: None,
        tool_calls: vec![ToolCallDelta {
            index: 0,
            id: id.map(String::from),
            name: name.map(String::from),
            arguments: args.map(String::from),
        }],
    };
    acc.apply(&d(Some("a"), Some("read_file"), Some("{")));
    acc.apply(&d(Some("b"), Some(""), Some("}")));
    let mut messages = Vec::new();
    let resp = acc.finish(&mut messages);
    let calls = resp.tool_calls.unwrap();
    assert_eq!(calls[0].id, "b");
    assert_eq!(calls[0].function.name, "read_file");
    assert_eq!(calls[0].function.arguments, "{}");
}

#[test]
fn gaps_get_placeholder_calls() {
    let (_, resp, _) = feed_all(&[
        "data: {\"choices\":[{\"delta\":{\"tool_calls\":[{\"index\":2,\"id\":\"x\",\"function\":{\"name\":\"list_dir\",\"arguments\":\"{}\"}}]}}]}\n",
    ]);
    let calls = resp.tool_calls.unwrap();
    assert_eq!(calls.len(), 3);
    assert_eq!(calls[0].id, "call_0");
    assert_eq!(calls[0].function.name, "");
    assert_eq!(calls[0].function.arguments, "");
    assert_eq!(calls[1].id, "call_1");
    assert_eq!(calls[2].id, "x");
    assert_eq!(calls[2].function.name, "list_dir");
}

#[test]
fn missing_id_is_synthesized_from_index() {
    let (_, resp, _) = feed_all(&[
        "data: {\"choices\":[{\"delta\":{\"tool_calls\":[{\"index\":0,\"function\":{\"name\":\"a\"}},{\"index\":11,\"function\":{\"name\":\"b\"}}]}}]}\n",
    ]);
    let calls = resp.tool_calls.unwrap();
    assert_eq!(calls.len(), 12);
    assert_eq!(calls[0].id, "call_0");
    assert_eq!(calls[11].id, "call_11");
    assert_eq!(calls[11].function.name, "b");
}

#[test]
fn text_is_withheld_when_there_are_tool_calls() {
    let (shown, resp, messages) = feed_all(&[
        "data: {\"choices\":[{\"delta\":{\"content\":\"Let me look.\"}}]}\n",
        "data: {\"choices\":[{\"delta\":{\"tool_calls\":[{\"index\":0,\"id\":\"c1\",\"function\":{\"name\":\"list_dir\",\"arguments\":\"{}\"}}]}}]}\n",
        "data: [DONE]\n",
    ]);
    assert_eq!(shown, vec!["Let me look.".to_string()]);
    assert!(resp.content.is_none());
    assert_eq!(resp.tool_calls.as_ref().unwrap().len(), 1);
    match &messages[0] {
        Message::Assistant { content, tool_calls, .. } => {
            assert_eq!(content.as_deref(), Some("Let me look."));
            assert_eq!(tool_calls.as_ref().unwrap()[0].id, "c1");
        }
        _ => panic!("expected an assistant turn"),
    }
}

#[test]
fn sentinel_and_close_give_the_same_result() {
    let body = [
        "data: {\"choices\":[{\"delta\":{\"content\":\"A\"}}]}\n",
        "data: {\"choices\":[{\"delta\":{\"tool_calls\":[{\"index\":1,\"function\":{\"name\":\"run_command\",\"arguments\":\"{}\"}}]}}]}\n",
    ];
    let mut with_sentinel: Vec<&str> = body.to_vec();
    with_sentinel.push("data: [DONE]\n");
    with_sentinel.push("data: {\"choices\":[{\"delta\":{\"content\":\"ignored\"}}]}\n");
    let (s1, r1, m1) = feed_all(&with_sentinel);
    let (s2, r2, m2) = feed_all(&body);
    assert_eq!(s1, s2);
    assert_eq!(r1.content, r2.content);
    let c1 = r1.tool_calls.unwrap();
    let c2 = r2.tool_calls.unwrap();
    assert_eq!(c1.len(), c2.len());
    for (a, b) in c1.iter().zip(c2.iter()) {
        assert_eq!(a.id, b.id);
        assert_eq!(a.function.name, b.function.name);
        assert_eq!(a.function.arguments, b.function.arguments);
    }
    assert_eq!(m1.len(), m2.len());
}

#[test]
fn malformed_fragments_and_other_lines_are_skipped() {
    let (shown, resp, _) = feed_all(&[
        ": keep-alive\n",
        "data: {not json\n",
        "event: ping\n",
        "data: {\"choices\":[{\"delta\":{\"content\":42}}]}\n",
        "data: {\"choices\":[]}\n",
        "data: {\"choices\":[{\"delta\":{\"content\":\"ok\"}}]}\n",
    ]);
    assert_eq!(shown, vec!["ok".to_string()]);
    assert_eq!(resp.content.as_deref(), Some("ok"));
}

#[test]
fn invalid_utf8_line_is_skipped() {
    let mut dec = SseDecoder::new();
    let mut bytes = b"data: \xff\xfe\n".to_vec();
    bytes.extend_from_slice(b"data: {\"a\":1}\n");
    let out = dec.push(&bytes);
    assert_eq!(out, vec!["{\"a\":1}".to_string()]);
}

#[test]
fn decoder_keeps_partial_line_and_stops_at_sentinel() {
    let mut dec = SseDecoder::new();
    assert!(dec.push(b"data: x").is_empty());
    assert_eq!(dec.push(b"y\r\ndata: [DONE]\ndata: z\n"), vec!["xy".to_string()]);
    assert!(dec.is_done());
    assert!(dec.push(b"data: w\n").is_empty());
}

#[test]
fn empty_stream_has_no_content() {
    let (shown, resp, messages) = feed_all(&[]);
    assert!(shown.is_empty());
    assert!(resp.content.is_none());
    assert!(resp.tool_calls.is_none());
    assert_eq!(messages.len(), 1);
}

#[test]
fn chunk_boundaries_inside_a_character_do_not_matter() {
    let body = "data: {\"choices\":[{\"delta\":{\"content\":\"h\u{e9}llo \u{2713}\"}}]}\n".as_bytes().to_vec();
    let mut whole = StreamTurn::new();
    let shown_whole = whole.feed(&body);
    for cut in 1..body.len() {
        let mut split = StreamTurn::new();
        let mut shown = split.feed(&body[..cut]);
        shown.extend(split.feed(&body[cut..]));
        assert_eq!(shown, shown_whole);
        let mut m = Vec::new();
        let r = split.finish(&mut m);
        assert_eq!(r.content.as_deref(), Some("h\u{e9}llo \u{2713}"));
    }
    assert_eq!(shown_whole, vec!["h\u{e9}llo \u{2713}".to_string()]);
}
