//! The Gemini-style backend: the conversation as `contents`, the request
//! body, and reading replies.

use vstd::prelude::*;
use crate::json::{
    ArrayBuilder, JsonValue, JsonView, ObjectBuilder, elements, json_of, json_parses, json_text, lemma_array_view,
    parse_json, render_json,
};
use crate::message::{
    AgentResponse, CallView, FunctionCall, Message, MessageView, ToolCall, calls_view, conversation,
    nonempty_calls, opt_calls, opt_str, record_reply, reply_response, reply_turn,
};
use crate::stream::extra;
use crate::text::{decimal, with_number};
use crate::tools::{declaration, gemini_tool_defs, registry_view};

verus! {

// ---------------------------------------------------------------------------
// Contents
// ---------------------------------------------------------------------------

/// One part of a content entry, with a function call's arguments as text.
pub ghost enum PartShape {
    Text(Seq<char>),
    Call { name: Seq<char>, arguments: Seq<char> },
    Response { name: Seq<char>, result: Seq<char> },
}

/// A content entry: its role and its parts.
pub ghost struct EntryShape {
    pub role: Seq<char>,
    pub parts: Seq<PartShape>,
}

/// The parts of an assistant turn: its text when not empty, then its calls.
pub open spec fn assistant_parts(content: Option<Seq<char>>, calls: Option<Seq<CallView>>) -> Seq<PartShape> {
    let text = if extra(content).len() > 0 {
        seq![PartShape::Text(extra(content))]
    } else {
        Seq::empty()
    };
    let cs = match calls {
        Some(c) => c,
        None => Seq::empty(),
    };
    text + cs.map_values(|c: CallView| PartShape::Call { name: c.name, arguments: c.arguments })
}

/// The entries of a conversation: user-origin turns as `user`, assistant
/// turns as `model` (dropped when they have no part), tool results as `user`
/// turns carrying a function response named after the tool.
pub open spec fn entry_shapes(msgs: Seq<MessageView>) -> Seq<EntryShape>
    decreases msgs.len(),
{
    if msgs.len() == 0 {
        Seq::empty()
    } else {
        let rest = entry_shapes(msgs.drop_last());
        match msgs.last() {
            MessageView::Role { content, .. } => rest.push(
                EntryShape { role: "user"@, parts: seq![PartShape::Text(content)] },
            ),
            MessageView::Assistant { content, tool_calls, .. } => {
                let parts = assistant_parts(content, tool_calls);
                if parts.len() > 0 {
                    rest.push(EntryShape { role: "model"@, parts })
                } else {
                    rest
                }
            },
            MessageView::ToolResult { function_name, content, .. } => rest.push(
                EntryShape {
                    role: "user"@,
                    parts: seq![PartShape::Response { name: function_name, result: content }],
                },
            ),
        }
    }
}

/// A function-call part.
pub open spec fn call_json(name: Seq<char>, args: JsonView) -> JsonView {
    JsonView::Object(
        seq!["functionCall"@],
        seq![JsonView::Object(seq!["name"@, "args"@], seq![JsonView::Str(name), args])],
    )
}

/// The `args` of a call: its arguments text parsed, or an empty object when
/// the text is not JSON.
pub open spec fn call_args(arguments: Seq<char>) -> JsonView {
    if json_parses(arguments) {
        json_of(arguments)
    } else {
        JsonView::Object(Seq::empty(), Seq::empty())
    }
}

/// A content entry.
pub open spec fn entry_json(role: Seq<char>, parts: Seq<JsonView>) -> JsonView {
    JsonView::Object(seq!["role"@, "parts"@], seq![JsonView::Str(role), JsonView::Array(parts)])
}

/// The JSON of a part. A call's arguments are its JSON text parsed; text
/// that does not parse is sent as an empty object.
pub open spec fn part_matches(j: JsonView, p: PartShape) -> bool {
    match p {
        PartShape::Text(t) => j == JsonView::Object(seq!["text"@], seq![JsonView::Str(t)]),
        PartShape::Call { name, arguments } => j == call_json(name, call_args(arguments)),
        PartShape::Response { name, result } => j == JsonView::Object(
            seq!["functionResponse"@],
            seq![
                JsonView::Object(
                    seq!["name"@, "response"@],
                    seq![JsonView::Str(name), JsonView::Object(seq!["result"@], seq![JsonView::Str(result)])],
                ),
            ],
        ),
    }
}

/// The JSON of an entry.
pub open spec fn entry_matches(j: JsonView, e: EntryShape) -> bool {
    exists|parts: Seq<JsonView>|
        j == #[trigger] entry_json(e.role, parts) && parts.len() == e.parts.len() && forall|k: int|
            0 <= k < parts.len() ==> part_matches(#[trigger] parts[k], e.parts[k])
}

fn single_member(key: &str, v: JsonValue) -> (r: JsonValue)
    ensures
        r@ == JsonView::Object(seq![key@], seq![v@]),
{
    let mut o = ObjectBuilder::new();
    o.add(key, v);
    proof {
        assert(o.names() =~= seq![key@]);
        assert(o.values() =~= seq![v@]);
    }
    o.build()
}

fn text_part(t: &str) -> (r: JsonValue)
    ensures
        part_matches(r@, PartShape::Text(t@)),
{
    single_member("text", JsonValue::text(t))
}

fn call_part(c: &ToolCall) -> (r: JsonValue)
    ensures
        part_matches(r@, PartShape::Call { name: c.function.name@, arguments: c.function.arguments@ }),
{
    let args = match parse_json(c.function.arguments.as_str()) {
        Ok(v) => v,
        Err(_) => {
            let e = ObjectBuilder::new().build();
            proof {
                assert(e@ == JsonView::Object(Seq::empty(), Seq::empty()));
            }
            e
        },
    };
    let mut o = ObjectBuilder::new();
    o.add_text("name", c.function.name.as_str());
    o.add("args", args);
    proof {
        assert(o.names() =~= seq!["name"@, "args"@]);
        assert(o.values() =~= seq![JsonView::Str(c.function.name@), args@]);
    }
    let inner = o.build();
    let r = single_member("functionCall", inner);
    proof {
        assert(JsonView::Object(seq!["name"@, "args"@], seq![JsonView::Str(c.function.name@), args@])
            == inner@);
        assert(r@ == call_json(c.function.name@, args@));
    }
    r
}

fn response_part(name: &str, result: &str) -> (r: JsonValue)
    ensures
        part_matches(r@, PartShape::Response { name: name@, result: result@ }),
{
    let res = single_member("result", JsonValue::text(result));
    let mut o = ObjectBuilder::new();
    o.add_text("name", name);
    o.add("response", res);
    proof {
        assert(o.names() =~= seq!["name"@, "response"@]);
        assert(o.values() =~= seq![JsonView::Str(name@), res@]);
    }
    single_member("functionResponse", o.build())
}

fn entry(role: &str, parts: ArrayBuilder) -> (r: JsonValue)
    ensures
        r@ == JsonView::Object(seq!["role"@, "parts"@], seq![JsonView::Str(role@), JsonView::Array(parts@)]),
{
    let mut o = ObjectBuilder::new();
    o.add_text("role", role);
    let p = parts.build();
    o.add("parts", p);
    proof {
        assert(o.names() =~= seq!["role"@, "parts"@]);
        assert(o.values() =~= seq![JsonView::Str(role@), p@]);
    }
    o.build()
}

fn message_entry(m: &Message) -> (r: Option<JsonValue>)
    ensures
        entry_shapes(seq![m@]).len() == 0 <==> r is None,
        entry_shapes(seq![m@]).len() <= 1,
        r matches Some(j) ==> entry_matches(j@, entry_shapes(seq![m@])[0]),
{
    let ghost ms = seq![m@];
    assert(ms.drop_last() =~= Seq::<MessageView>::empty());
    assert(entry_shapes(Seq::<MessageView>::empty()) =~= Seq::<EntryShape>::empty());
    assert(ms.last() == m@);
    match m {
        Message::Role { content, .. } => {
            let mut parts = ArrayBuilder::new();
            let p = text_part(content.as_str());
            parts.add(p);
            let ghost pv = parts@;
            let e = entry("user", parts);
            proof {
                reveal_strlit("user");
                let shape = EntryShape { role: "user"@, parts: seq![PartShape::Text(content@)] };
                assert(entry_shapes(ms) =~= seq![shape]);
                assert(pv.len() == 1 && pv[0] == p@);
                assert(entry_matches(e@, shape)) by {
                    assert(e@ == entry_json(shape.role, pv));
                }
            }
            Some(e)
        },
        Message::Assistant { content, tool_calls, .. } => {
            let mut parts = ArrayBuilder::new();
            let ghost shapes = assistant_parts(opt_str(*content), opt_calls(*tool_calls));
            let ghost text_shapes = if extra(opt_str(*content)).len() > 0 {
                seq![PartShape::Text(extra(opt_str(*content)))]
            } else {
                Seq::<PartShape>::empty()
            };
            let mut n_text: usize = 0;
            if let Some(c) = content {
                if !c.as_str().is_empty() {
                    parts.add(text_part(c.as_str()));
                    n_text = 1;
                }
            }
            assert(parts@.len() == text_shapes.len());
            assert(n_text == text_shapes.len());
            assert(forall|k: int| 0 <= k < parts@.len() ==> part_matches(#[trigger] parts@[k], text_shapes[k]));
            let ghost cs = match opt_calls(*tool_calls) {
                Some(c) => c,
                None => Seq::<CallView>::empty(),
            };
            let ghost call_shapes = cs.map_values(
                |c: CallView| PartShape::Call { name: c.name, arguments: c.arguments },
            );
            assert(shapes == text_shapes + call_shapes);
            if let Some(calls) = tool_calls {
                let mut i: usize = 0;
                while i < calls.len()
                    invariant
                        i <= calls@.len(),
                        cs == calls_view(calls@),
                        call_shapes == cs.map_values(
                            |c: CallView| PartShape::Call { name: c.name, arguments: c.arguments },
                        ),
                        parts@.len() == text_shapes.len() + i,
                        forall|k: int|
                            0 <= k < parts@.len() ==> part_matches(
                                #[trigger] parts@[k],
                                (text_shapes + call_shapes)[k],
                            ),
                    decreases calls@.len() - i,
                {
                    parts.add(call_part(&calls[i]));
                    proof {
                        assert((text_shapes + call_shapes)[text_shapes.len() + i] == call_shapes[i as int]);
                    }
                    i = i + 1;
                }
            }
            assert(parts@.len() == shapes.len());
            let n_calls: usize = match tool_calls {
                Some(c) => c.len(),
                None => 0,
            };
            assert(parts@.len() == n_text + n_calls);
            if n_text == 0 && n_calls == 0 {
                proof {
                    assert(entry_shapes(ms) == entry_shapes(Seq::<MessageView>::empty()));
                }
                return None;
            }
            let ghost pv = parts@;
            let e = entry("model", parts);
            proof {
                let shape = EntryShape { role: "model"@, parts: shapes };
                assert(entry_shapes(ms) =~= seq![shape]);
                assert(entry_matches(e@, shape)) by {
                    assert(e@ == entry_json(shape.role, pv));
                }
            }
            Some(e)
        },
        Message::ToolResult { function_name, content, .. } => {
            let mut parts = ArrayBuilder::new();
            let p = response_part(function_name.as_str(), content.as_str());
            parts.add(p);
            let ghost pv = parts@;
            let e = entry("user", parts);
            proof {
                let shape = EntryShape {
                    role: "user"@,
                    parts: seq![PartShape::Response { name: function_name@, result: content@ }],
                };
                assert(entry_shapes(ms) =~= seq![shape]);
                assert(pv.len() == 1 && pv[0] == p@);
                assert(entry_matches(e@, shape)) by {
                    assert(e@ == entry_json(shape.role, pv));
                }
            }
            Some(e)
        },
    }
}

proof fn lemma_entry_shapes_push(msgs: Seq<MessageView>, m: MessageView)
    ensures
        entry_shapes(msgs.push(m)) == entry_shapes(msgs) + entry_shapes(seq![m]),
{
    let a = msgs.push(m);
    assert(a.drop_last() =~= msgs);
    assert(seq![m].drop_last() =~= Seq::<MessageView>::empty());
    assert(entry_shapes(Seq::<MessageView>::empty()) =~= Seq::<EntryShape>::empty());
    let one = entry_shapes(seq![m]);
    assert(entry_shapes(a) =~= entry_shapes(msgs) + one);
}

/// The conversation as Gemini `contents`, followed by the user's input as a
/// user entry when there is one.
pub fn message_to_contents(messages: &[Message], user_input: Option<&str>) -> (r: Vec<JsonValue>)
    ensures
        ({
            let msgs = match user_input {
                Some(t) => conversation(messages@).push(crate::message::user_turn(t@)),
                None => conversation(messages@),
            };
            let shapes = entry_shapes(msgs);
            &&& r@.len() == shapes.len()
            &&& forall|i: int| 0 <= i < r@.len() ==> entry_matches(#[trigger] r@[i]@, shapes[i])
        }),
{
    let mut out: Vec<JsonValue> = Vec::new();
    let ghost conv = conversation(messages@);
    let mut i: usize = 0;
    while i < messages.len()
        invariant
            i <= messages@.len(),
            conv == conversation(messages@),
            out@.len() == entry_shapes(conv.subrange(0, i as int)).len(),
            forall|k: int|
                0 <= k < out@.len() ==> entry_matches(
                    #[trigger] out@[k]@,
                    entry_shapes(conv.subrange(0, i as int))[k],
                ),
        decreases messages@.len() - i,
    {
        let ghost before = entry_shapes(conv.subrange(0, i as int));
        proof {
            assert(conv.subrange(0, i + 1) =~= conv.subrange(0, i as int).push(messages@[i as int]@));
            lemma_entry_shapes_push(conv.subrange(0, i as int), messages@[i as int]@);
        }
        if let Some(e) = message_entry(&messages[i]) {
            out.push(e);
        }
        i = i + 1;
    }
    assert(conv.subrange(0, conv.len() as int) =~= conv);
    if let Some(t) = user_input {
        let m = Message::user(t);
        proof {
            lemma_entry_shapes_push(conv, m@);
        }
        if let Some(e) = message_entry(&m) {
            out.push(e);
        }
    }
    out
}

// ---------------------------------------------------------------------------
// Requests
// ---------------------------------------------------------------------------

/// The sampling settings: temperature 0.1, top-p 0.95, at most 8192 output tokens.
pub open spec fn generation_config() -> JsonView {
    JsonView::Object(
        seq!["temperature"@, "topP"@, "maxOutputTokens"@],
        seq![JsonView::Number("0.1"@), JsonView::Number("0.95"@), JsonView::Number("8192"@)],
    )
}

/// The body of a generation request: the contents, the system instruction,
/// the six function declarations, and the sampling settings.
pub fn generate_request(contents: Vec<JsonValue>, system: &str) -> (r: JsonValue)
    ensures
        r@.field("contents"@) == Some(JsonView::Array(elements(contents@))),
        r@.field("systemInstruction"@) == Some(
            JsonView::Object(
                seq!["parts"@],
                seq![JsonView::Array(seq![JsonView::Object(seq!["text"@], seq![JsonView::Str(system@)])])],
            ),
        ),
        r@.field("tools"@) == Some(
            JsonView::Array(
                seq![
                    JsonView::Object(
                        seq!["functionDeclarations"@],
                        seq![JsonView::Array(registry_view().map_values(|t| declaration(t)))],
                    ),
                ],
            ),
        ),
        r@.field("generationConfig"@) == Some(generation_config()),
{
    proof {
        lemma_array_view(contents);
    }
    let ghost cv = elements(contents@);
    let cs = JsonValue::Array(contents);
    let mut sys_parts = ArrayBuilder::new();
    sys_parts.add(single_member("text", JsonValue::text(system)));
    let sys = single_member("parts", sys_parts.build());
    let mut decls = ArrayBuilder::new();
    let defs = gemini_tool_defs();
    let mut rest = defs;
    while rest.len() > 0
        invariant
            rest@.len() + decls@.len() == registry_view().len(),
            forall|k: int| 0 <= k < decls@.len() ==> #[trigger] decls@[k] == declaration(registry_view()[k]),
            forall|k: int| 0 <= k < rest@.len() ==> #[trigger] rest@[k]@ == declaration(
                registry_view()[k + decls@.len()],
            ),
        decreases rest@.len(),
    {
        let ghost prev = rest@;
        let d = rest.remove(0);
        proof {
            assert(d@ == declaration(registry_view()[decls@.len() as int]));
        }
        decls.add(d);
        proof {
            assert forall|k: int| 0 <= k < rest@.len() implies #[trigger] rest@[k]@ == declaration(
                registry_view()[k + decls@.len()],
            ) by {
                assert(rest@[k] == prev[k + 1]);
            }
        }
    }
    proof {
        assert(decls@ =~= registry_view().map_values(|t| declaration(t)));
    }
    let mut tools = ArrayBuilder::new();
    let dv = decls.build();
    let fd = single_member("functionDeclarations", dv);
    tools.add(fd);
    assert(tools@ =~= seq![fd@]);
    let mut gen = ObjectBuilder::new();
    gen.add("temperature", JsonValue::Number(String::from_str("0.1")));
    gen.add("topP", JsonValue::Number(String::from_str("0.95")));
    gen.add("maxOutputTokens", JsonValue::Number(String::from_str("8192")));
    proof {
        assert(gen.names() =~= seq!["temperature"@, "topP"@, "maxOutputTokens"@]);
        assert(gen.values() =~= seq![JsonView::Number("0.1"@), JsonView::Number("0.95"@), JsonView::Number("8192"@)]);
    }
    let gv = gen.build();
    let mut o = ObjectBuilder::new();
    o.add("contents", cs);
    o.add("systemInstruction", sys);
    let tv = tools.build();
    o.add("tools", tv);
    o.add("generationConfig", gv);
    proof {
        reveal_strlit("contents");
        reveal_strlit("systemInstruction");
        reveal_strlit("tools");
        reveal_strlit("generationConfig");
        let names = o.names();
        let values = o.values();
        assert(names =~= seq!["contents"@, "systemInstruction"@, "tools"@, "generationConfig"@]);
        assert(names[0] == "contents"@);
        assert("contents"@.len() == 8);
        assert("tools"@.len() == 5);
        assert("systemInstruction"@.len() == 17);
        assert(names[0] != "systemInstruction"@);
        assert(names[0] != "tools"@);
        assert(names[1] != "tools"@);
        assert(crate::json::member_from(names, values, "contents"@, 0) == Some(values[0]));
        assert(crate::json::member_from(names, values, "systemInstruction"@, 1) == Some(values[1]));
        assert(crate::json::member_from(names, values, "systemInstruction"@, 0) == Some(values[1]));
        assert(crate::json::member_from(names, values, "tools"@, 2) == Some(values[2]));
        assert(crate::json::member_from(names, values, "tools"@, 1) == Some(values[2]));
        assert(crate::json::member_from(names, values, "tools"@, 0) == Some(values[2]));
        reveal_strlit("generationConfig");
        assert("generationConfig"@.len() == 16);
        assert(names[0] != "generationConfig"@);
        assert(names[1] != "generationConfig"@);
        assert(names[2] != "generationConfig"@);
        assert(crate::json::member_from(names, values, "generationConfig"@, 3) == Some(values[3]));
        assert(crate::json::member_from(names, values, "generationConfig"@, 2) == Some(values[3]));
        assert(crate::json::member_from(names, values, "generationConfig"@, 1) == Some(values[3]));
        assert(crate::json::member_from(names, values, "generationConfig"@, 0) == Some(values[3]));
        assert(sys_parts@ =~= seq![JsonView::Object(seq!["text"@], seq![JsonView::Str(system@)])]);
    }
    o.build()
}

// ---------------------------------------------------------------------------
// Replies
// ---------------------------------------------------------------------------

/// One part of a reply: text, or a function call with its arguments as JSON text.
#[derive(Clone, Debug)]
pub struct ReplyPart {
    pub text: Option<String>,
    pub call: Option<FunctionCall>,
}

pub ghost struct ReplyPartView {
    pub text: Option<Seq<char>>,
    pub call: Option<(Seq<char>, Seq<char>)>,
}

impl View for ReplyPart {
    type V = ReplyPartView;

    open spec fn view(&self) -> ReplyPartView {
        ReplyPartView {
            text: opt_str(self.text),
            call: match self.call {
                Some(f) => Some((f.name@, f.arguments@)),
                None => None,
            },
        }
    }
}

/// The text of a reply: that of its last text part.
pub open spec fn last_text(ps: Seq<ReplyPartView>) -> Option<Seq<char>>
    decreases ps.len(),
{
    if ps.len() == 0 {
        None
    } else if ps.last().text is Some {
        ps.last().text
    } else {
        last_text(ps.drop_last())
    }
}

/// The tool calls of a reply, in part order; each is named `gemini-<part index>`.
pub open spec fn part_calls(ps: Seq<ReplyPartView>) -> Seq<CallView>
    decreases ps.len(),
{
    if ps.len() == 0 {
        Seq::empty()
    } else {
        let rest = part_calls(ps.drop_last());
        match ps.last().call {
            Some((name, arguments)) => rest.push(
                CallView {
                    id: "gemini-"@ + decimal((ps.len() - 1) as nat),
                    kind: "function"@,
                    name,
                    arguments,
                },
            ),
            None => rest,
        }
    }
}

/// Records the parts of a reply: one assistant turn with the last text and
/// the calls; the response holds the calls, or the text when there are none.
pub fn record_parts(messages: &mut Vec<Message>, parts: &Vec<ReplyPart>) -> (r: AgentResponse)
    ensures
        ({
            let ps = parts@.map_values(|p: ReplyPart| p@);
            let calls = nonempty_calls(Some(part_calls(ps)));
            &&& conversation(final(messages)@) == conversation(old(messages)@).push(
                reply_turn(last_text(ps), calls),
            )
            &&& r@ == reply_response(last_text(ps), calls)
        }),
{
    let ghost ps = parts@.map_values(|p: ReplyPart| p@);
    let mut text: Option<String> = None;
    let mut calls: Vec<ToolCall> = Vec::new();
    let mut i: usize = 0;
    while i < parts.len()
        invariant
            i <= parts@.len(),
            ps == parts@.map_values(|p: ReplyPart| p@),
            opt_str(text) == last_text(ps.subrange(0, i as int)),
            calls_view(calls@) == part_calls(ps.subrange(0, i as int)),
        decreases parts@.len() - i,
    {
        proof {
            let a = ps.subrange(0, i + 1);
            assert(a.drop_last() =~= ps.subrange(0, i as int));
            assert(a.last() == parts@[i as int]@);
        }
        let p = &parts[i];
        if let Some(t) = &p.text {
            text = Some(t.clone());
        }
        if let Some(f) = &p.call {
            let ghost before = calls_view(calls@);
            calls.push(
                ToolCall::function_call(with_number("gemini-", i), f.name.clone(), f.arguments.clone()),
            );
            proof {
                assert(calls_view(calls@) =~= before.push(calls@[calls@.len() - 1]@));
            }
        }
        i = i + 1;
    }
    proof {
        assert(ps.subrange(0, ps.len() as int) =~= ps);
    }
    record_reply(messages, text, Some(calls))
}

/// Why a reply body gives no parts.
pub enum ReplyError {
    /// The body carries an error object with this message.
    Api(String),
    /// The body is not a reply.
    Malformed,
    /// The body has no candidate.
    NoCandidate,
    /// The first candidate has no content.
    NoContent,
}

/// The message of an embedded error object.
pub open spec fn error_message_of(v: JsonView) -> Option<Seq<char>> {
    match v.field("error"@) {
        Some(JsonView::Object(..)) => match v.field("error"@)->0.field("message"@) {
            Some(JsonView::Str(m)) => Some(m),
            _ => None,
        },
        _ => None,
    }
}

/// A part: optional text `text`, and an optional `functionCall` object with
/// a text `name` and some `args`, whose JSON text is the call's arguments.
pub open spec fn part_info(v: JsonView) -> Option<ReplyPartView> {
    let text = crate::json::opt_text(v.field("text"@));
    let fc = v.field("functionCall"@);
    let call = match fc {
        None => Some(None),
        Some(JsonView::Null) => Some(None),
        Some(f) => match f.field("name"@) {
            Some(JsonView::Str(n)) => if f.field("args"@) is Some {
                Some(Some((n, json_text(f.field("args"@)->0))))
            } else {
                None
            },
            _ => None,
        },
    };
    if text is Some && call is Some {
        Some(ReplyPartView { text: text->0, call: call->0 })
    } else {
        None
    }
}

/// Why a body gives no parts, as a value.
pub ghost enum ErrorKind {
    Api(Seq<char>),
    Malformed,
    NoCandidate,
    NoContent,
}

/// The parts of the first candidate of a reply body, or why there are none:
/// an embedded error object first, then a missing candidate, a missing
/// content, and a shape that does not fit.
pub open spec fn reply_parts_of(v: JsonView) -> Result<Seq<ReplyPartView>, ErrorKind> {
    if error_message_of(v) is Some {
        Err(ErrorKind::Api(error_message_of(v)->0))
    } else {
        match v.field("candidates"@) {
            None => Err(ErrorKind::NoCandidate),
            Some(JsonView::Null) => Err(ErrorKind::NoCandidate),
            Some(JsonView::Array(cs)) => if cs.len() == 0 {
                Err(ErrorKind::NoCandidate)
            } else {
                match cs[0].field("content"@) {
                    None => Err(ErrorKind::NoContent),
                    Some(JsonView::Null) => Err(ErrorKind::NoContent),
                    Some(c) => match c.field("parts"@) {
                        None => Ok(Seq::empty()),
                        Some(JsonView::Null) => Ok(Seq::empty()),
                        Some(JsonView::Array(ps)) => if forall|k: int|
                            0 <= k < ps.len() ==> (#[trigger] part_info(ps[k])) is Some {
                            Ok(Seq::new(ps.len(), |k: int| part_info(ps[k])->0))
                        } else {
                            Err(ErrorKind::Malformed)
                        },
                        _ => Err(ErrorKind::Malformed),
                    },
                }
            },
            _ => Err(ErrorKind::Malformed),
        }
    }
}

pub open spec fn error_kind(e: ReplyError) -> ErrorKind {
    match e {
        ReplyError::Api(m) => ErrorKind::Api(m@),
        ReplyError::Malformed => ErrorKind::Malformed,
        ReplyError::NoCandidate => ErrorKind::NoCandidate,
        ReplyError::NoContent => ErrorKind::NoContent,
    }
}

fn read_part(v: &JsonValue) -> (r: Option<ReplyPart>)
    ensures
        match r {
            Some(p) => part_info(v@) == Some(p@),
            None => part_info(v@) is None,
        },
{
    let text = match crate::json::read_opt_text(v.get("text")) {
        Some(t) => t,
        None => return None,
    };
    let call = match v.get("functionCall") {
        None => None,
        Some(JsonValue::Null) => None,
        Some(fc) => {
            let name = match fc.get("name") {
                Some(JsonValue::Str(n)) => n.clone(),
                _ => return None,
            };
            let args = match fc.get("args") {
                Some(a) => render_json(a),
                None => return None,
            };
            Some(FunctionCall { name, arguments: args })
        },
    };
    Some(ReplyPart { text, call })
}

/// Reads the parts of the first candidate of a reply body, or why there are
/// none. Each call's arguments are the JSON text of its `args`.
pub fn read_parts(v: &JsonValue) -> (r: Result<Vec<ReplyPart>, ReplyError>)
    ensures
        match reply_parts_of(v@) {
            Ok(infos) => r matches Ok(ps) && ps@.len() == infos.len() && forall|k: int|
                0 <= k < infos.len() ==> #[trigger] ps@[k]@ == infos[k],
            Err(kind) => r matches Err(e) && error_kind(e) == kind,
        },
{
    if let Some(err) = v.get("error") {
        if let JsonValue::Object(_) = err {
            if let Some(JsonValue::Str(m)) = err.get("message") {
                return Err(ReplyError::Api(m.clone()));
            }
        }
    }
    let cands = match v.get("candidates") {
        None => return Err(ReplyError::NoCandidate),
        Some(JsonValue::Null) => return Err(ReplyError::NoCandidate),
        Some(JsonValue::Array(c)) => c,
        _ => return Err(ReplyError::Malformed),
    };
    if cands.len() == 0 {
        return Err(ReplyError::NoCandidate);
    }
    proof {
        lemma_array_view(*cands);
    }
    let content = match cands[0].get("content") {
        None => return Err(ReplyError::NoContent),
        Some(JsonValue::Null) => return Err(ReplyError::NoContent),
        Some(c) => c,
    };
    let parts = match content.get("parts") {
        None => return Ok(Vec::new()),
        Some(JsonValue::Null) => return Ok(Vec::new()),
        Some(JsonValue::Array(p)) => p,
        _ => return Err(ReplyError::Malformed),
    };
    proof {
        lemma_array_view(*parts);
    }
    let ghost pv = elements(parts@);
    let mut out: Vec<ReplyPart> = Vec::new();
    let mut i: usize = 0;
    while i < parts.len()
        invariant
            i <= parts@.len(),
            pv == elements(parts@),
            reply_parts_of(v@) == (if forall|k: int| 0 <= k < pv.len() ==> (#[trigger] part_info(pv[k])) is Some {
                Ok(Seq::new(pv.len(), |k: int| part_info(pv[k])->0))
            } else {
                Err(ErrorKind::Malformed)
            }),
            out@.len() == i,
            forall|k: int| 0 <= k < i ==> part_info(pv[k]) == Some(#[trigger] out@[k]@),
        decreases parts@.len() - i,
    {
        match read_part(&parts[i]) {
            Some(p) => out.push(p),
            None => {
                assert(part_info(pv[i as int]) is None);
                return Err(ReplyError::Malformed);
            },
        }
        i = i + 1;
    }
    proof {
        assert forall|k: int| 0 <= k < pv.len() implies (#[trigger] part_info(pv[k])) is Some by {
            assert(part_info(pv[k]) == Some(out@[k]@));
        }
    }
    Ok(out)
}

/// The message of each reason a body gives no reply.
pub open spec fn kind_message(k: ErrorKind) -> Seq<char> {
    match k {
        ErrorKind::Api(m) => "API error: "@ + m,
        ErrorKind::Malformed => "malformed response body"@,
        ErrorKind::NoCandidate => "No response from model"@,
        ErrorKind::NoContent => "Empty candidate content"@,
    }
}

pub open spec fn reply_error_message(e: ReplyError) -> Seq<char> {
    kind_message(error_kind(e))
}

fn error_text(e: ReplyError) -> (r: String)
    ensures
        r@ == reply_error_message(e),
{
    match e {
        ReplyError::Api(m) => String::from_str("API error: ").concat(m.as_str()),
        ReplyError::Malformed => String::from_str("malformed response body"),
        ReplyError::NoCandidate => String::from_str("No response from model"),
        ReplyError::NoContent => String::from_str("Empty candidate content"),
    }
}

/// The outcome of a generation request from its status and body. A failed
/// status, a body that is not JSON, an embedded error object, or a body with
/// no usable candidate is an error and leaves the conversation as it was;
/// otherwise one assistant turn is appended.
pub fn chat_outcome(messages: &mut Vec<Message>, status_ok: bool, status: &str, body: &str) -> (r: Result<
    AgentResponse,
    String,
>)
    ensures
        !status_ok ==> r is Err && r->Err_0@ == "API error ("@ + status@ + "): "@ + body@,
        status_ok && !json_parses(body@) ==> r is Err,
        r is Err ==> final(messages)@ == old(messages)@,
        r is Ok ==> final(messages)@.len() == old(messages)@.len() + 1 && conversation(
            final(messages)@,
        ).drop_last() == conversation(old(messages)@),
        status_ok && json_parses(body@) ==> match reply_parts_of(json_of(body@)) {
            Ok(ps) => {
                let calls = nonempty_calls(Some(part_calls(ps)));
                &&& r is Ok
                &&& conversation(final(messages)@) == conversation(old(messages)@).push(
                    reply_turn(last_text(ps), calls),
                )
                &&& r->Ok_0@ == reply_response(last_text(ps), calls)
            },
            Err(k) => r is Err && r->Err_0@ == kind_message(k),
        },
{
    if !status_ok {
        return Err(String::from_str("API error (").concat(status).concat("): ").concat(body));
    }
    let v = match parse_json(body) {
        Ok(v) => v,
        Err(e) => return Err(e),
    };
    match read_parts(&v) {
        Err(e) => Err(error_text(e)),
        Ok(parts) => {
            proof {
                match reply_parts_of(v@) {
                    Ok(infos) => {
                        assert(parts@.map_values(|p: ReplyPart| p@) =~= infos);
                    },
                    Err(_) => {},
                }
            }
            let r = record_parts(messages, &parts);
            proof {
                assert(conversation(final(messages)@).drop_last() =~= conversation(old(messages)@));
            }
            Ok(r)
        },
    }
}

} // verus!
