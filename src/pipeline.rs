//! The task pipeline: one user request driven through layout, plan, context,
//! the tool-calling execution loop and a final check. Each step takes the
//! outcome of the previous action and names the next one; performing the
//! actions (model calls, tool runs) is left to the caller.

use vstd::prelude::*;
use crate::json::{json_of, json_parses, parse_json};
use crate::message::{
    AgentResponse, CallView, Message, MessageView, ToolCall, calls_view, conversation, opt_str, user_turn,
};
use crate::executor::tool_result_text;
use crate::openai::StreamTurn;
use crate::plan::{Plan, PlanView, extract_json, plan_of, read_plan, unfenced};
use crate::text::{trim_text, trimmed, views};

verus! {

/// How many of the plan's paths are read.
pub const MAX_CONTEXT_PATHS: usize = 8;

/// The stages of a request, in order.
#[derive(Clone, Copy, Debug, PartialEq, Eq, Structural)]
pub enum Phase {
    Layout,
    Plan,
    Context,
    Execute,
    Verify,
    Finished,
}

/// What the caller does next.
#[derive(Clone, Debug)]
pub enum Action {
    /// Run this `list_dir` call on the workspace.
    ListDir { call: ToolCall },
    /// Ask the planning model, without tools, and report its text.
    Complete { system: String, user: String },
    /// Run this `read_file` call on the workspace.
    ReadFile { call: ToolCall },
    /// Run one streamed chat call of the executing model over the conversation.
    Chat,
    /// Run this tool call on the workspace.
    RunTool { call: ToolCall },
    /// The request is over.
    Finish { error: Option<String>, message: Option<String> },
}

pub ghost enum ActionView {
    ListDir { call: CallView },
    Complete { system: Seq<char>, user: Seq<char> },
    ReadFile { call: CallView },
    Chat,
    RunTool { call: CallView },
    Finish { error: Option<Seq<char>>, message: Option<Seq<char>> },
}

impl View for Action {
    type V = ActionView;

    open spec fn view(&self) -> ActionView {
        match self {
            Action::ListDir { call } => ActionView::ListDir { call: call@ },
            Action::Complete { system, user } => ActionView::Complete { system: system@, user: user@ },
            Action::ReadFile { call } => ActionView::ReadFile { call: call@ },
            Action::Chat => ActionView::Chat,
            Action::RunTool { call } => ActionView::RunTool { call: call@ },
            Action::Finish { error, message } => ActionView::Finish {
                error: opt_str(*error),
                message: opt_str(*message),
            },
        }
    }
}

// ---------------------------------------------------------------------------
// Fixed texts
// ---------------------------------------------------------------------------

pub open spec fn planner_instruction() -> Seq<char> {
    "You are a coding task planner. Given a user request and the project root directory listing, output a JSON object (and nothing else) with:\n- \"summary\": one-line summary of the task\n- \"paths_to_read\": array of file/dir paths to read for context (e.g. [\"src/main.rs\", \"Cargo.toml\"]). Use at most 8 paths. Omit if not needed.\n- \"todos\": array of 1\u{2013}8 concrete step descriptions to complete the task (e.g. \"Add a config module\", \"Update main to use config\")\n\nOutput only valid JSON, no markdown or explanation."@
}

pub open spec fn final_check_instruction() -> Seq<char> {
    "You are a coding assistant. In one short sentence, say whether the task is complete or what the user might want to do next. No code."@
}

/// The planning request: the user's request and the root listing.
pub open spec fn plan_request(prompt: Seq<char>, root: Seq<char>) -> Seq<char> {
    "User request:\n"@ + prompt + "\n\nRoot directory listing:\n"@ + root
}

/// The root listing when listing failed.
pub open spec fn listing_failed(e: Seq<char>) -> Seq<char> {
    "(list_dir failed: "@ + e + ")"@
}

/// A context tool call on one path.
pub open spec fn context_call(id: Seq<char>, name: Seq<char>, path: Seq<char>) -> CallView {
    CallView { id, kind: "function"@, name, arguments: "{\"path\":\""@ + path + "\"}"@ }
}

/// The first context part.
pub open spec fn root_part(root: Seq<char>) -> Seq<char> {
    "Root listing:\n"@ + root
}

/// The context part of one file read.
pub open spec fn file_part(path: Seq<char>, content: Seq<char>) -> Seq<char> {
    "--- "@ + path + " ---\n"@ + content
}

/// Parts joined by blank lines.
pub open spec fn join_blocks(ps: Seq<Seq<char>>) -> Seq<char>
    decreases ps.len(),
{
    if ps.len() == 0 {
        Seq::empty()
    } else if ps.len() == 1 {
        ps[0]
    } else {
        join_blocks(ps.drop_last()) + "\n\n"@ + ps.last()
    }
}

/// The turn that opens the execution: the context, the task, and the request.
pub open spec fn execution_request(context: Seq<Seq<char>>, summary: Seq<char>, prompt: Seq<char>) -> Seq<char> {
    "Context:\n"@ + join_blocks(context) + "\n\nTask: "@ + summary + "\n\nUser request: "@ + prompt
}

/// The final check request.
pub open spec fn check_request(summary: Seq<char>, prompt: Seq<char>) -> Seq<char> {
    "Task was: "@ + summary + ". User said: "@ + prompt
}

/// The message of a plan that could not be read.
pub open spec fn plan_failed(reason: Seq<char>, raw: Seq<char>) -> Seq<char> {
    "Failed to parse plan: "@ + reason + ". Raw: "@ + raw
}

/// The reason given for JSON that is not a plan.
pub open spec fn not_a_plan() -> Seq<char> {
    "not a plan object"@
}

pub open spec fn default_summary() -> Seq<char> {
    "Task"@
}

pub open spec fn default_todo() -> Seq<char> {
    "Complete the user request."@
}

// ---------------------------------------------------------------------------
// The state
// ---------------------------------------------------------------------------

pub ghost struct PipelineView {
    pub phase: Phase,
    pub prompt: Seq<char>,
    pub root: Seq<char>,
    pub summary: Seq<char>,
    pub todos: Seq<Seq<char>>,
    pub paths: Seq<Seq<char>>,
    pub next_path: int,
    pub context: Seq<Seq<char>>,
    pub messages: Seq<MessageView>,
    pub calls: Seq<CallView>,
    pub next_call: int,
}

/// One request in progress.
pub struct Pipeline {
    phase: Phase,
    prompt: String,
    root: String,
    summary: String,
    todos: Vec<String>,
    paths: Vec<String>,
    next_path: usize,
    context: Vec<String>,
    messages: Vec<Message>,
    calls: Vec<ToolCall>,
    next_call: usize,
}

impl View for Pipeline {
    type V = PipelineView;

    closed spec fn view(&self) -> PipelineView {
        PipelineView {
            phase: self.phase,
            prompt: self.prompt@,
            root: self.root@,
            summary: self.summary@,
            todos: views(self.todos@),
            paths: views(self.paths@),
            next_path: self.next_path as int,
            context: views(self.context@),
            messages: conversation(self.messages@),
            calls: calls_view(self.calls@),
            next_call: self.next_call as int,
        }
    }
}

impl PipelineView {
    /// At most eight paths are read, each once; tool calls are run each once.
    pub open spec fn wf(self) -> bool {
        &&& self.paths.len() <= 8
        &&& 0 <= self.next_path <= self.paths.len()
        &&& 0 <= self.next_call <= self.calls.len()
    }
}

/// The view after the plan was adopted and before any file was read.
pub open spec fn with_plan(s: PipelineView, p: PlanView) -> PipelineView {
    let paths = match p.paths_to_read {
        Some(ps) => if ps.len() <= 8 {
            ps
        } else {
            ps.subrange(0, 8)
        },
        None => Seq::empty(),
    };
    PipelineView {
        phase: Phase::Context,
        summary: match p.summary {
            Some(t) => t,
            None => default_summary(),
        },
        todos: match p.todos {
            Some(t) => t,
            None => seq![default_todo()],
        },
        paths,
        next_path: 0,
        context: seq![root_part(s.root)],
        ..s
    }
}

/// The view when execution starts: one user turn carrying the context.
pub open spec fn executing(s: PipelineView) -> PipelineView {
    PipelineView {
        phase: Phase::Execute,
        messages: seq![user_turn(execution_request(s.context, s.summary, s.prompt))],
        calls: Seq::empty(),
        next_call: 0,
        ..s
    }
}

/// The view and action when context is complete: execution starts.
pub open spec fn after_context(s: PipelineView) -> (PipelineView, ActionView) {
    (executing(s), ActionView::Chat)
}

/// The view and action after the paths up to `s.next_path` were handled.
pub open spec fn next_context_step(s: PipelineView) -> (PipelineView, ActionView) {
    if s.next_path < s.paths.len() {
        (s, ActionView::ReadFile { call: context_call("ctx_read"@, "read_file"@, s.paths[s.next_path]) })
    } else {
        after_context(s)
    }
}

/// The view and action of the final check.
pub open spec fn verifying(s: PipelineView) -> (PipelineView, ActionView) {
    (
        PipelineView { phase: Phase::Verify, ..s },
        ActionView::Complete { system: final_check_instruction(), user: check_request(s.summary, s.prompt) },
    )
}

fn concat3(a: &str, b: &str, c: &str) -> (r: String)
    ensures
        r@ == a@ + b@ + c@,
{
    String::from_str(a).concat(b).concat(c)
}

fn make_context_call(id: &str, name: &str, path: &str) -> (r: ToolCall)
    ensures
        r@ == context_call(id@, name@, path@),
{
    ToolCall::function_call(
        String::from_str(id),
        String::from_str(name),
        concat3("{\"path\":\"", path, "\"}"),
    )
}

/// The `list_dir` call on a path that the pipeline runs itself.
pub fn list_dir_call(path: &str) -> (r: ToolCall)
    ensures
        r@ == context_call("ctx_list"@, "list_dir"@, path@),
{
    make_context_call("ctx_list", "list_dir", path)
}

/// The `read_file` call on a path that the pipeline runs itself.
pub fn read_file_call(path: &str) -> (r: ToolCall)
    ensures
        r@ == context_call("ctx_read"@, "read_file"@, path@),
{
    make_context_call("ctx_read", "read_file", path)
}

fn join_parts(ps: &Vec<String>) -> (r: String)
    ensures
        r@ == join_blocks(views(ps@)),
{
    let mut r = String::new();
    let mut i: usize = 0;
    while i < ps.len()
        invariant
            i <= ps@.len(),
            r@ == join_blocks(views(ps@.subrange(0, i as int))),
        decreases ps@.len() - i,
    {
        proof {
            let a = views(ps@.subrange(0, i + 1));
            assert(a.drop_last() =~= views(ps@.subrange(0, i as int)));
            assert(a.last() == ps@[i as int]@);
        }
        if i > 0 {
            r.append("\n\n");
        }
        r.append(ps[i].as_str());
        proof {
            if i == 0 {
                assert(r@ =~= ps@[0]@);
            }
        }
        i = i + 1;
    }
    proof {
        assert(ps@.subrange(0, ps@.len() as int) =~= ps@);
    }
    r
}

impl Pipeline {
    /// A request, before anything was done: first the workspace root is listed.
    pub fn begin(prompt: &str) -> (r: (Pipeline, Action))
        ensures
            r.0@.phase == Phase::Layout,
            r.0@.prompt == prompt@,
            r.0@.wf(),
            r.1@ == (ActionView::ListDir { call: context_call("ctx_list"@, "list_dir"@, "."@) }),
    {
        let p = Pipeline {
            phase: Phase::Layout,
            prompt: String::from_str(prompt),
            root: String::new(),
            summary: String::new(),
            todos: Vec::new(),
            paths: Vec::new(),
            next_path: 0,
            context: Vec::new(),
            messages: Vec::new(),
            calls: Vec::new(),
            next_call: 0,
        };
        proof {
            assert(views(p.paths@) =~= Seq::<Seq<char>>::empty());
            assert(calls_view(p.calls@) =~= Seq::<CallView>::empty());
        }
        (p, Action::ListDir { call: list_dir_call(".") })
    }

    /// The conversation of the execution phase.
    pub fn messages(&self) -> (r: &Vec<Message>)
        ensures
            conversation(r@) == self@.messages,
    {
        &self.messages
    }

    /// The steps of the plan, to show.
    pub fn todos(&self) -> (r: &Vec<String>)
        ensures
            views(r@) == self@.todos,
    {
        &self.todos
    }

    /// The current stage.
    pub fn phase(&self) -> (r: Phase)
        ensures
            r == self@.phase,
    {
        self.phase
    }

    /// The root listing arrived (or failed, which is recorded in its place);
    /// the planning model is asked next.
    pub fn layout_listed(&mut self, outcome: Result<String, String>) -> (r: Action)
        requires
            old(self)@.phase == Phase::Layout,
            old(self)@.wf(),
        ensures
            final(self)@.wf(),
            final(self)@ == (PipelineView {
                phase: Phase::Plan,
                root: match outcome {
                    Ok(t) => t@,
                    Err(e) => listing_failed(e@),
                },
                ..old(self)@
            }),
            r@ == (ActionView::Complete {
                system: planner_instruction(),
                user: plan_request(old(self)@.prompt, final(self)@.root),
            }),
    {
        let root = match outcome {
            Ok(t) => t,
            Err(e) => concat3("(list_dir failed: ", e.as_str(), ")"),
        };
        self.root = root;
        self.phase = Phase::Plan;
        let user = String::from_str("User request:\n").concat(self.prompt.as_str()).concat(
            "\n\nRoot directory listing:\n",
        ).concat(self.root.as_str());
        Action::Complete { system: planner_system_text(), user }
    }

    /// The planning model answered. A failed call, or a reply that is not a
    /// plan, ends the request with an error; a plan is adopted.
    pub fn plan_replied(&mut self, outcome: Result<String, String>) -> (r: Action)
        requires
            old(self)@.phase == Phase::Plan,
            old(self)@.wf(),
        ensures
            final(self)@.wf(),
            match outcome {
                Err(e) => final(self)@ == (PipelineView { phase: Phase::Finished, ..old(self)@ })
                    && r@ == (ActionView::Finish { error: Some(e@), message: None }),
                Ok(text) => {
                    let payload = match unfenced(text@) {
                        Some(p) => p,
                        None => text@,
                    };
                    &&& !json_parses(payload) ==> final(self)@ == (PipelineView {
                        phase: Phase::Finished,
                        ..old(self)@
                    }) && r@ is Finish
                    &&& json_parses(payload) ==> match plan_of(json_of(payload)) {
                        None => final(self)@ == (PipelineView { phase: Phase::Finished, ..old(self)@ })
                            && r@ == (ActionView::Finish {
                            error: Some(plan_failed(not_a_plan(), text@)),
                            message: None,
                        }),
                        Some(p) => (final(self)@, r@) == next_context_step(with_plan(old(self)@, p)),
                    }
                    &&& (r@ is Finish ==> final(self)@.phase == Phase::Finished)
                    &&& (!(r@ is Finish) ==> final(self)@.phase == Phase::Context || final(self)@.phase
                        == Phase::Execute)
                },
            },
    {
        match outcome {
            Err(e) => {
                self.phase = Phase::Finished;
                Action::Finish { error: Some(e), message: None }
            },
            Ok(text) => {
                let payload = match extract_json(text.as_str()) {
                    Some(p) => p,
                    None => text.clone(),
                };
                match parse_json(payload.as_str()) {
                    Err(e) => {
                        self.phase = Phase::Finished;
                        let msg = String::from_str("Failed to parse plan: ").concat(e.as_str()).concat(
                            ". Raw: ",
                        ).concat(text.as_str());
                        Action::Finish { error: Some(msg), message: None }
                    },
                    Ok(v) => self.plan_value(&v, text.as_str()),
                }
            },
        }
    }

    /// A planning reply parsed as JSON: a plan is adopted; anything else ends
    /// the request with an error that quotes the raw reply.
    pub fn plan_value(&mut self, v: &crate::json::JsonValue, raw: &str) -> (r: Action)
        requires
            old(self)@.phase == Phase::Plan,
            old(self)@.wf(),
        ensures
            final(self)@.wf(),
            match plan_of(v@) {
                None => final(self)@ == (PipelineView { phase: Phase::Finished, ..old(self)@ })
                    && r@ == (ActionView::Finish {
                    error: Some(plan_failed(not_a_plan(), raw@)),
                    message: None,
                }),
                Some(p) => (final(self)@, r@) == next_context_step(with_plan(old(self)@, p)),
            },
    {
        match read_plan(v) {
            None => {
                self.phase = Phase::Finished;
                let msg = String::from_str("Failed to parse plan: not a plan object. Raw: ").concat(raw);
                proof {
                    reveal_strlit("Failed to parse plan: not a plan object. Raw: ");
                    reveal_strlit("Failed to parse plan: ");
                    reveal_strlit("not a plan object");
                    reveal_strlit(". Raw: ");
                    assert(msg@ =~= plan_failed(not_a_plan(), raw@));
                }
                Action::Finish { error: Some(msg), message: None }
            },
            Some(plan) => self.adopt_plan(plan),
        }
    }

    /// Adopts a plan: missing steps and summary take their defaults, at most
    /// the first eight paths are kept, and the first is read; with none,
    /// execution starts at once.
    pub fn adopt_plan(&mut self, plan: Plan) -> (r: Action)
        requires
            old(self)@.phase == Phase::Plan,
            old(self)@.wf(),
        ensures
            final(self)@.wf(),
            (final(self)@, r@) == next_context_step(with_plan(old(self)@, plan@)),
    {
        let ghost p = plan@;
        let Plan { summary, paths_to_read, todos } = plan;
        self.summary = match summary {
            Some(s) => s,
            None => String::from_str("Task"),
        };
        self.todos = match todos {
            Some(t) => t,
            None => {
                let v = vec![String::from_str("Complete the user request.")];
                proof {
                    assert(views(v@) =~= seq![default_todo()]);
                }
                v
            },
        };
        let mut paths: Vec<String> = match paths_to_read {
            Some(ps) => ps,
            None => Vec::new(),
        };
        if paths.len() > MAX_CONTEXT_PATHS {
            paths.truncate(MAX_CONTEXT_PATHS);
        }
        proof {
            assert(views(paths@) =~= with_plan(old(self)@, p).paths);
        }
        self.paths = paths;
        self.next_path = 0;
        let first = String::from_str("Root listing:\n").concat(self.root.as_str());
        self.context = vec![first];
        self.phase = Phase::Context;
        proof {
            assert(views(self.context@) =~= seq![root_part(old(self)@.root)]);
            assert(self@ == with_plan(old(self)@, p));
        }
        self.next_context_action()
    }

    fn next_context_action(&mut self) -> (r: Action)
        requires
            old(self)@.phase == Phase::Context,
            old(self)@.wf(),
        ensures
            final(self)@.wf(),
            (final(self)@, r@) == next_context_step(old(self)@),
    {
        if self.next_path < self.paths.len() {
            Action::ReadFile { call: read_file_call(self.paths[self.next_path].as_str()) }
        } else {
            self.start_execution()
        }
    }

    fn start_execution(&mut self) -> (r: Action)
        requires
            old(self)@.wf(),
        ensures
            final(self)@.wf(),
            (final(self)@, r@) == after_context(old(self)@),
    {
        let context = join_parts(&self.context);
        let text = String::from_str("Context:\n").concat(context.as_str()).concat("\n\nTask: ").concat(
            self.summary.as_str(),
        ).concat("\n\nUser request: ").concat(self.prompt.as_str());
        self.messages = vec![Message::user(text.as_str())];
        self.calls = Vec::new();
        self.next_call = 0;
        self.phase = Phase::Execute;
        proof {
            assert(conversation(self.messages@) =~= seq![
                user_turn(execution_request(old(self)@.context, old(self)@.summary, old(self)@.prompt)),
            ]);
            assert(calls_view(self.calls@) =~= Seq::<CallView>::empty());
        }
        Action::Chat
    }

    /// A context file was read, or could not be: its content joins the
    /// context, a failure is left out; the next path is read, or execution
    /// starts.
    pub fn file_read(&mut self, outcome: Result<String, String>) -> (r: Action)
        requires
            old(self)@.phase == Phase::Context,
            old(self)@.wf(),
            old(self)@.next_path < old(self)@.paths.len(),
        ensures
            final(self)@.wf(),
            ({
                let s = old(self)@;
                let context = match outcome {
                    Ok(c) => s.context.push(file_part(s.paths[s.next_path], c@)),
                    Err(_) => s.context,
                };
                (final(self)@, r@) == next_context_step(
                    PipelineView { next_path: s.next_path + 1, context, ..s },
                )
            }),
    {
        if let Ok(c) = &outcome {
            let part = String::from_str("--- ").concat(self.paths[self.next_path].as_str()).concat(
                " ---\n",
            ).concat(c.as_str());
            self.context.push(part);
        }
        self.next_path = self.next_path + 1;
        proof {
            let s = old(self)@;
            match outcome {
                Ok(c) => {
                    assert(views(self.context@) =~= s.context.push(file_part(s.paths[s.next_path], c@)));
                },
                Err(_) => {},
            }
        }
        self.next_context_action()
    }

    /// A streamed chat call ended: its turn is recorded; its tool calls are
    /// run one by one in order, or, with none, the final check follows.
    pub fn chat_finished(&mut self, turn: StreamTurn) -> (r: Action)
        requires
            old(self)@.phase == Phase::Execute,
            old(self)@.wf(),
        ensures
            final(self)@.wf(),
            final(self)@.messages == old(self)@.messages.push(
                crate::message::reply_turn(
                    crate::stream::final_content(turn@.acc),
                    crate::stream::final_calls(turn@.acc),
                ),
            ),
            match crate::stream::final_calls(turn@.acc) {
                Some(calls) => final(self)@ == (PipelineView {
                    messages: final(self)@.messages,
                    calls,
                    next_call: 0,
                    ..old(self)@
                }) && r@ == (ActionView::RunTool { call: calls[0] }),
                None => (final(self)@, r@) == verifying(
                    PipelineView { messages: final(self)@.messages, ..old(self)@ },
                ),
            },
    {
        let resp = turn.finish(&mut self.messages);
        self.reply_received(resp)
    }

    /// A chat call failed: the execution loop ends and the final check follows.
    pub fn chat_failed(&mut self) -> (r: Action)
        requires
            old(self)@.phase == Phase::Execute,
            old(self)@.wf(),
        ensures
            final(self)@.wf(),
            (final(self)@, r@) == verifying(old(self)@),
    {
        self.verify_step()
    }

    fn reply_received(&mut self, resp: AgentResponse) -> (r: Action)
        requires
            old(self)@.phase == Phase::Execute,
            old(self)@.wf(),
            resp@.tool_calls matches Some(c) ==> c.len() > 0,
        ensures
            final(self)@.wf(),
            final(self)@.messages == old(self)@.messages,
            match resp@.tool_calls {
                Some(calls) => final(self)@ == (PipelineView { calls, next_call: 0, ..old(self)@ })
                    && r@ == (ActionView::RunTool { call: calls[0] }),
                None => (final(self)@, r@) == verifying(old(self)@),
            },
    {
        match resp.tool_calls {
            Some(calls) => {
                self.calls = calls;
                self.next_call = 0;
                Action::RunTool { call: self.calls[0].duplicate() }
            },
            None => self.verify_step(),
        }
    }

    fn verify_step(&mut self) -> (r: Action)
        requires
            old(self)@.wf(),
        ensures
            final(self)@.wf(),
            (final(self)@, r@) == verifying(old(self)@),
    {
        self.phase = Phase::Verify;
        let user = String::from_str("Task was: ").concat(self.summary.as_str()).concat(". User said: ").concat(
            self.prompt.as_str(),
        );
        Action::Complete { system: final_check_text(), user }
    }

    /// A tool call finished: its result, or `Error: ` and its error, is
    /// appended as the answer to that call before anything else happens; the
    /// next call of the batch is run, or, after the last, the model is asked
    /// again.
    pub fn tool_finished(&mut self, outcome: Result<String, String>) -> (r: Action)
        requires
            old(self)@.phase == Phase::Execute,
            old(self)@.wf(),
            old(self)@.next_call < old(self)@.calls.len(),
        ensures
            final(self)@.wf(),
            ({
                let s = old(self)@;
                let c = s.calls[s.next_call];
                let text = match outcome {
                    Ok(t) => t@,
                    Err(e) => "Error: "@ + e@,
                };
                &&& final(self)@ == (PipelineView {
                    messages: s.messages.push(
                        MessageView::ToolResult {
                            role: "tool"@,
                            tool_call_id: c.id,
                            function_name: c.name,
                            content: text,
                        },
                    ),
                    next_call: s.next_call + 1,
                    ..s
                })
                &&& r@ == if s.next_call + 1 < s.calls.len() {
                    ActionView::RunTool { call: s.calls[s.next_call + 1] }
                } else {
                    ActionView::Chat
                }
            }),
    {
        let text = tool_result_text(outcome);
        assert(calls_view(self.calls@).len() == self.calls@.len());
        let n = self.calls.len();
        assert(self.next_call < n);
        let m = Message::tool_result(&self.calls[self.next_call], text);
        self.messages.push(m);
        self.next_call = self.next_call + 1;
        proof {
            let s = old(self)@;
            let c = s.calls[s.next_call];
            assert(conversation(self.messages@) =~= s.messages.push(m@));
        }
        if self.next_call < self.calls.len() {
            Action::RunTool { call: self.calls[self.next_call].duplicate() }
        } else {
            Action::Chat
        }
    }

    /// The final check answered: the request is over, with the trimmed answer
    /// to show when it is not blank, or the error.
    pub fn verified(&mut self, outcome: Result<String, String>) -> (r: Action)
        requires
            old(self)@.phase == Phase::Verify,
            old(self)@.wf(),
        ensures
            final(self)@.wf(),
            final(self)@ == (PipelineView { phase: Phase::Finished, ..old(self)@ }),
            r@ == match outcome {
                Ok(t) => ActionView::Finish {
                    error: None,
                    message: if trimmed(t@).len() > 0 {
                        Some(trimmed(t@))
                    } else {
                        None
                    },
                },
                Err(e) => ActionView::Finish { error: Some(e@), message: None },
            },
    {
        self.phase = Phase::Finished;
        match outcome {
            Ok(t) => {
                let tt = trim_text(t.as_str());
                if tt.as_str().is_empty() {
                    Action::Finish { error: None, message: None }
                } else {
                    Action::Finish { error: None, message: Some(tt) }
                }
            },
            Err(e) => Action::Finish { error: Some(e), message: None },
        }
    }
}

fn planner_system_text() -> (r: String)
    ensures
        r@ == planner_instruction(),
{
    String::from_str("You are a coding task planner. Given a user request and the project root directory listing, output a JSON object (and nothing else) with:\n- \"summary\": one-line summary of the task\n- \"paths_to_read\": array of file/dir paths to read for context (e.g. [\"src/main.rs\", \"Cargo.toml\"]). Use at most 8 paths. Omit if not needed.\n- \"todos\": array of 1\u{2013}8 concrete step descriptions to complete the task (e.g. \"Add a config module\", \"Update main to use config\")\n\nOutput only valid JSON, no markdown or explanation.")
}

fn final_check_text() -> (r: String)
    ensures
        r@ == final_check_instruction(),
{
    String::from_str("You are a coding assistant. In one short sentence, say whether the task is complete or what the user might want to do next. No code.")
}

// ---------------------------------------------------------------------------
// A plain conversation loop
// ---------------------------------------------------------------------------

/// The request a line of input makes: the line trimmed; a blank line makes none.
pub fn prompt_of_line(line: &str) -> (r: Option<String>)
    ensures
        match r {
            Some(t) => t@ == trimmed(line@) && t@.len() > 0,
            None => trimmed(line@).len() == 0,
        },
{
    let t = trim_text(line);
    if t.as_str().is_empty() {
        None
    } else {
        Some(t)
    }
}

/// The tool calls of one reply, run one at a time in order.
pub struct ToolRound {
    calls: Vec<ToolCall>,
    next: usize,
}

pub ghost struct RoundView {
    pub calls: Seq<CallView>,
    pub next: int,
}

impl View for ToolRound {
    type V = RoundView;

    closed spec fn view(&self) -> RoundView {
        RoundView { calls: calls_view(self.calls@), next: self.next as int }
    }
}

impl ToolRound {
    /// The round of a response's tool calls; none when it has none.
    pub fn of_response(resp: AgentResponse) -> (r: Option<ToolRound>)
        ensures
            match resp@.tool_calls {
                Some(c) => c.len() > 0 ==> (r matches Some(t) && t@ == (RoundView { calls: c, next: 0 })),
                None => r is None,
            },
            resp@.tool_calls matches Some(c) && c.len() == 0 ==> r is None,
    {
        match resp.tool_calls {
            Some(calls) => if calls.len() == 0 {
                None
            } else {
                Some(ToolRound { calls, next: 0 })
            },
            None => None,
        }
    }

    /// Whether a call is left to run.
    pub fn has_next(&self) -> (r: bool)
        ensures
            r == (self@.next < self@.calls.len()),
    {
        self.next < self.calls.len()
    }

    /// The call to run now.
    pub fn current(&self) -> (r: &ToolCall)
        requires
            self@.next < self@.calls.len(),
        ensures
            r@ == self@.calls[self@.next],
    {
        &self.calls[self.next]
    }

    /// Records the outcome of the current call as its result turn, before
    /// the next call runs.
    pub fn record(&mut self, messages: &mut Vec<Message>, outcome: Result<String, String>)
        requires
            old(self)@.next < old(self)@.calls.len(),
        ensures
            final(self)@ == (RoundView { next: old(self)@.next + 1, ..old(self)@ }),
            ({
                let c = old(self)@.calls[old(self)@.next];
                conversation(final(messages)@) == conversation(old(messages)@).push(
                    MessageView::ToolResult {
                        role: "tool"@,
                        tool_call_id: c.id,
                        function_name: c.name,
                        content: match outcome {
                            Ok(t) => t@,
                            Err(e) => "Error: "@ + e@,
                        },
                    },
                )
            }),
    {
        let n = self.calls.len();
        let text = tool_result_text(outcome);
        let m = Message::tool_result(&self.calls[self.next], text);
        messages.push(m);
        self.next = self.next + 1;
        proof {
            assert(conversation(final(messages)@) =~= conversation(old(messages)@).push(m@));
        }
    }
}

} // verus!
