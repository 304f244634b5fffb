//! The protocol-neutral conversation model shared by both backends.

use vstd::prelude::*;
use crate::text::{lowercase_text, lowercased, same_text};

verus! {

/// A function invocation requested by the model.
#[derive(Clone, Debug)]
pub struct FunctionCall {
    pub name: String,
    /// A JSON object, as text.
    pub arguments: String,
}

/// One tool invocation of an assistant turn.
#[derive(Clone, Debug)]
pub struct ToolCall {
    pub id: String,
    /// Always `function` for the tools of this library.
    pub type_: String,
    pub function: FunctionCall,
}

/// One turn of a conversation.
#[derive(Clone, Debug)]
pub enum Message {
    /// A turn of plain text; the role is `user`.
    Role { role: String, content: String },
    /// A reply of the model: text, tool calls, or both.
    Assistant { role: String, content: Option<String>, tool_calls: Option<Vec<ToolCall>> },
    /// The result of one tool call, answering the call of the same id.
    ToolResult { role: String, tool_call_id: String, function_name: String, content: String },
}

/// What one model call produced.
#[derive(Clone, Debug)]
pub struct AgentResponse {
    /// Text to show; none whenever there are tool calls.
    pub content: Option<String>,
    /// The tool calls to run, in order; never an empty list.
    pub tool_calls: Option<Vec<ToolCall>>,
}

/// The chat backend in use.
#[derive(Clone, Copy, Debug, PartialEq, Eq, Structural)]
pub enum AgentProvider {
    OpenAi,
    Gemini,
}

pub ghost struct CallView {
    pub id: Seq<char>,
    pub kind: Seq<char>,
    pub name: Seq<char>,
    pub arguments: Seq<char>,
}

pub ghost enum MessageView {
    Role { role: Seq<char>, content: Seq<char> },
    Assistant { role: Seq<char>, content: Option<Seq<char>>, tool_calls: Option<Seq<CallView>> },
    ToolResult {
        role: Seq<char>,
        tool_call_id: Seq<char>,
        function_name: Seq<char>,
        content: Seq<char>,
    },
}

pub ghost struct ResponseView {
    pub content: Option<Seq<char>>,
    pub tool_calls: Option<Seq<CallView>>,
}

impl View for ToolCall {
    type V = CallView;

    open spec fn view(&self) -> CallView {
        CallView {
            id: self.id@,
            kind: self.type_@,
            name: self.function.name@,
            arguments: self.function.arguments@,
        }
    }
}

pub open spec fn opt_str(o: Option<String>) -> Option<Seq<char>> {
    match o {
        Some(s) => Some(s@),
        None => None,
    }
}

pub open spec fn calls_view(v: Seq<ToolCall>) -> Seq<CallView> {
    v.map_values(|c: ToolCall| c@)
}

pub open spec fn opt_calls(o: Option<Vec<ToolCall>>) -> Option<Seq<CallView>> {
    match o {
        Some(v) => Some(calls_view(v@)),
        None => None,
    }
}

impl View for Message {
    type V = MessageView;

    open spec fn view(&self) -> MessageView {
        match self {
            Message::Role { role, content } => MessageView::Role { role: role@, content: content@ },
            Message::Assistant { role, content, tool_calls } => MessageView::Assistant {
                role: role@,
                content: opt_str(*content),
                tool_calls: opt_calls(*tool_calls),
            },
            Message::ToolResult { role, tool_call_id, function_name, content } =>
                MessageView::ToolResult {
                role: role@,
                tool_call_id: tool_call_id@,
                function_name: function_name@,
                content: content@,
            },
        }
    }
}

impl View for AgentResponse {
    type V = ResponseView;

    open spec fn view(&self) -> ResponseView {
        ResponseView { content: opt_str(self.content), tool_calls: opt_calls(self.tool_calls) }
    }
}

/// The views of the turns of a conversation.
pub open spec fn conversation(v: Seq<Message>) -> Seq<MessageView> {
    v.map_values(|m: Message| m@)
}

/// A user turn of the given text.
pub open spec fn user_turn(text: Seq<char>) -> MessageView {
    MessageView::Role { role: "user"@, content: text }
}

/// The assistant turn that records a reply.
pub open spec fn reply_turn(content: Option<Seq<char>>, calls: Option<Seq<CallView>>) -> MessageView {
    MessageView::Assistant { role: "assistant"@, content, tool_calls: calls }
}

/// The response that a reply gives to the caller: the text is held back while
/// tool calls are outstanding.
pub open spec fn reply_response(content: Option<Seq<char>>, calls: Option<Seq<CallView>>) -> ResponseView {
    ResponseView { content: if calls is Some { None } else { content }, tool_calls: calls }
}

/// A list of tool calls with no calls counts as none.
pub open spec fn nonempty_calls(calls: Option<Seq<CallView>>) -> Option<Seq<CallView>> {
    match calls {
        Some(c) => if c.len() == 0 { None } else { Some(c) },
        None => None,
    }
}

/// A copy of an optional text.
pub fn copy_opt_text(s: &Option<String>) -> (r: Option<String>)
    ensures
        opt_str(r) == opt_str(*s),
{
    match s {
        Some(t) => Some(t.clone()),
        None => None,
    }
}

/// The kind of every tool call: `function`.
pub fn default_tool_type() -> (r: String)
    ensures
        r@ == "function"@,
{
    String::from_str("function")
}

impl ToolCall {
    /// A tool call of the `function` kind.
    pub fn function_call(id: String, name: String, arguments: String) -> (r: ToolCall)
        ensures
            r@ == (CallView { id: id@, kind: "function"@, name: name@, arguments: arguments@ }),
    {
        ToolCall { id, type_: default_tool_type(), function: FunctionCall { name, arguments } }
    }

    /// A copy of this call.
    pub fn duplicate(&self) -> (r: ToolCall)
        ensures
            r@ == self@,
    {
        ToolCall {
            id: self.id.clone(),
            type_: self.type_.clone(),
            function: FunctionCall {
                name: self.function.name.clone(),
                arguments: self.function.arguments.clone(),
            },
        }
    }
}

/// A copy of a list of tool calls.
pub fn copy_calls(v: &Vec<ToolCall>) -> (r: Vec<ToolCall>)
    ensures
        calls_view(r@) == calls_view(v@),
{
    let mut out: Vec<ToolCall> = Vec::new();
    let mut i: usize = 0;
    while i < v.len()
        invariant
            i <= v@.len(),
            out@.len() == i,
            forall|k: int| 0 <= k < i ==> #[trigger] out@[k]@ == v@[k]@,
        decreases v@.len() - i,
    {
        out.push(v[i].duplicate());
        i = i + 1;
    }
    proof {
        assert(calls_view(out@) =~= calls_view(v@));
    }
    out
}

/// A copy of an optional list of tool calls.
pub fn copy_opt_calls(v: &Option<Vec<ToolCall>>) -> (r: Option<Vec<ToolCall>>)
    ensures
        opt_calls(r) == opt_calls(*v),
{
    match v {
        Some(c) => Some(copy_calls(c)),
        None => None,
    }
}

impl Message {
    /// A user turn.
    pub fn user(text: &str) -> (r: Message)
        ensures
            r@ == user_turn(text@),
    {
        Message::Role { role: String::from_str("user"), content: String::from_str(text) }
    }

    /// The result of a tool call.
    pub fn tool_result(call: &ToolCall, content: String) -> (r: Message)
        ensures
            r@ == (MessageView::ToolResult {
                role: "tool"@,
                tool_call_id: call.id@,
                function_name: call.function.name@,
                content: content@,
            }),
    {
        Message::ToolResult {
            role: String::from_str("tool"),
            tool_call_id: call.id.clone(),
            function_name: call.function.name.clone(),
            content,
        }
    }
}

/// Opens a model call: appends the user's input, when there is one, as a user turn.
pub fn begin_turn(messages: &mut Vec<Message>, user_input: Option<&str>)
    ensures
        conversation(final(messages)@) == match user_input {
            Some(t) => conversation(old(messages)@).push(user_turn(t@)),
            None => conversation(old(messages)@),
        },
{
    if let Some(t) = user_input {
        messages.push(Message::user(t));
        proof {
            assert(conversation(final(messages)@) =~= conversation(old(messages)@).push(user_turn(t@)));
        }
    }
}

/// Closes a successful model call: appends exactly one assistant turn that records
/// the reply, and returns what the caller acts on. An empty list of tool calls
/// counts as none.
pub fn record_reply(
    messages: &mut Vec<Message>,
    content: Option<String>,
    tool_calls: Option<Vec<ToolCall>>,
) -> (r: AgentResponse)
    ensures
        conversation(final(messages)@) == conversation(old(messages)@).push(
            reply_turn(opt_str(content), nonempty_calls(opt_calls(tool_calls))),
        ),
        r@ == reply_response(opt_str(content), nonempty_calls(opt_calls(tool_calls))),
{
    let calls = match tool_calls {
        Some(c) => if c.len() == 0 {
            None
        } else {
            Some(c)
        },
        None => None,
    };
    let turn = Message::Assistant {
        role: String::from_str("assistant"),
        content: copy_opt_text(&content),
        tool_calls: copy_opt_calls(&calls),
    };
    messages.push(turn);
    proof {
        assert(conversation(final(messages)@) =~= conversation(old(messages)@).push(
            reply_turn(opt_str(content), nonempty_calls(opt_calls(tool_calls))),
        ));
    }
    if calls.is_some() {
        AgentResponse { content: None, tool_calls: calls }
    } else {
        AgentResponse { content, tool_calls: None }
    }
}

/// The provider that a name selects: `openai` or `gpt`, and `gemini`, in any case.
pub open spec fn provider_named(lower: Seq<char>) -> Option<AgentProvider> {
    if lower == "openai"@ || lower == "gpt"@ {
        Some(AgentProvider::OpenAi)
    } else if lower == "gemini"@ {
        Some(AgentProvider::Gemini)
    } else {
        None
    }
}

/// The message for a name that selects no provider.
pub open spec fn unknown_provider_message(s: Seq<char>) -> Seq<char> {
    "unknown provider: '"@ + s + "'. use 'openai' or 'gemini'"@
}

impl AgentProvider {
    /// The provider a name selects, ignoring case.
    pub fn parse(s: &str) -> (r: Result<AgentProvider, String>)
        ensures
            match provider_named(lowercased(s@)) {
                Some(p) => r == Ok::<AgentProvider, String>(p),
                None => r is Err && r->Err_0@ == unknown_provider_message(s@),
            },
    {
        let lower = lowercase_text(s);
        if same_text(lower.as_str(), "openai") || same_text(lower.as_str(), "gpt") {
            Ok(AgentProvider::OpenAi)
        } else if same_text(lower.as_str(), "gemini") {
            Ok(AgentProvider::Gemini)
        } else {
            let msg = String::from_str("unknown provider: '").concat(s).concat(
                "'. use 'openai' or 'gemini'",
            );
            Err(msg)
        }
    }
}

impl std::str::FromStr for AgentProvider {
    type Err = String;

    fn from_str(s: &str) -> Result<AgentProvider, String> {
        AgentProvider::parse(s)
    }
}

} // verus!
