//! The workspace tool executor's decisions: which operation a tool call asks
//! for, and the result text of each operation. Performing the operations on
//! the file system and the shell is left to the caller.

use vstd::prelude::*;
use vstd::multiset::Multiset;
use crate::json::{JsonValue, JsonView, json_of, json_parses, parse_json};
use crate::message::ToolCall;
use crate::text::{is_sorted_texts, same_text, sort_texts, text_le, views};

verus! {

/// Runs tool calls against one workspace directory.
pub struct Executor {
    workspace: String,
}

impl Executor {
    /// An executor for the given workspace root.
    pub fn new(workspace: String) -> (r: Executor)
        ensures
            r.workspace()@ == workspace@,
    {
        Executor { workspace }
    }

    pub closed spec fn workspace(&self) -> String {
        self.workspace
    }

    /// The workspace root that relative paths are resolved against.
    pub fn root(&self) -> (r: &String)
        ensures
            r@ == self.workspace()@,
    {
        &self.workspace
    }
}

/// One operation on the workspace.
#[derive(Clone, Debug)]
pub enum ToolOp {
    /// Create or overwrite a file, creating parent directories.
    WriteFile { path: String, content: String },
    ReadFile { path: String },
    ListDir { path: String },
    RunCommand { command: String },
    /// Create a directory and its parents.
    CreateDir { path: String },
}

pub ghost enum OpView {
    WriteFile { path: Seq<char>, content: Seq<char> },
    ReadFile { path: Seq<char> },
    ListDir { path: Seq<char> },
    RunCommand { command: Seq<char> },
    CreateDir { path: Seq<char> },
}

impl View for ToolOp {
    type V = OpView;

    open spec fn view(&self) -> OpView {
        match self {
            ToolOp::WriteFile { path, content } => OpView::WriteFile { path: path@, content: content@ },
            ToolOp::ReadFile { path } => OpView::ReadFile { path: path@ },
            ToolOp::ListDir { path } => OpView::ListDir { path: path@ },
            ToolOp::RunCommand { command } => OpView::RunCommand { command: command@ },
            ToolOp::CreateDir { path } => OpView::CreateDir { path: path@ },
        }
    }
}

/// The text member `key` of the arguments, when it is a string.
pub open spec fn text_arg(args: JsonView, key: Seq<char>) -> Option<Seq<char>> {
    match args.field(key) {
        Some(JsonView::Str(t)) => Some(t),
        _ => None,
    }
}

pub open spec fn unknown_tool_message(name: Seq<char>) -> Seq<char> {
    "Unknown tool: "@ + name
}

/// The operation a tool asks for, or the error text.
pub open spec fn op_of(name: Seq<char>, args: JsonView) -> Result<OpView, Seq<char>> {
    let path = text_arg(args, "path"@);
    if name == "create_file"@ || name == "write_file"@ {
        match (path, text_arg(args, "content"@)) {
            (None, _) => Err("Missing path"@),
            (Some(_), None) => Err("Missing content"@),
            (Some(p), Some(c)) => Ok(OpView::WriteFile { path: p, content: c }),
        }
    } else if name == "read_file"@ {
        match path {
            None => Err("Missing path"@),
            Some(p) => Ok(OpView::ReadFile { path: p }),
        }
    } else if name == "list_dir"@ {
        match path {
            None => Ok(OpView::ListDir { path: "."@ }),
            Some(p) => Ok(OpView::ListDir { path: p }),
        }
    } else if name == "run_command"@ {
        match text_arg(args, "command"@) {
            None => Err("Missing command"@),
            Some(c) => Ok(OpView::RunCommand { command: c }),
        }
    } else if name == "create_directory"@ {
        match path {
            None => Err("Missing path"@),
            Some(p) => Ok(OpView::CreateDir { path: p }),
        }
    } else {
        Err(unknown_tool_message(name))
    }
}

fn text_arg_of(args: &JsonValue, key: &str) -> (r: Option<String>)
    ensures
        match r {
            Some(t) => text_arg(args@, key@) == Some(t@),
            None => text_arg(args@, key@) is None,
        },
{
    match args.get(key) {
        Some(JsonValue::Str(t)) => Some(t.clone()),
        _ => None,
    }
}

/// The operation that a tool of the given name asks for with the given
/// (parsed) arguments.
pub fn plan_tool(name: &str, args: &JsonValue) -> (r: Result<ToolOp, String>)
    ensures
        match op_of(name@, args@) {
            Ok(op) => r is Ok && r->Ok_0@ == op,
            Err(e) => r is Err && r->Err_0@ == e,
        },
{
    let path = text_arg_of(args, "path");
    if same_text(name, "create_file") || same_text(name, "write_file") {
        match path {
            None => Err(String::from_str("Missing path")),
            Some(p) => match text_arg_of(args, "content") {
                None => Err(String::from_str("Missing content")),
                Some(c) => Ok(ToolOp::WriteFile { path: p, content: c }),
            },
        }
    } else if same_text(name, "read_file") {
        match path {
            None => Err(String::from_str("Missing path")),
            Some(p) => Ok(ToolOp::ReadFile { path: p }),
        }
    } else if same_text(name, "list_dir") {
        match path {
            None => Ok(ToolOp::ListDir { path: String::from_str(".") }),
            Some(p) => Ok(ToolOp::ListDir { path: p }),
        }
    } else if same_text(name, "run_command") {
        match text_arg_of(args, "command") {
            None => Err(String::from_str("Missing command")),
            Some(c) => Ok(ToolOp::RunCommand { command: c }),
        }
    } else if same_text(name, "create_directory") {
        match path {
            None => Err(String::from_str("Missing path")),
            Some(p) => Ok(ToolOp::CreateDir { path: p }),
        }
    } else {
        Err(String::from_str("Unknown tool: ").concat(name))
    }
}

/// The operation a tool call asks for. Its arguments must be JSON text; when
/// they are not, the error is the JSON parser's message.
pub fn plan_call(call: &ToolCall) -> (r: Result<ToolOp, String>)
    ensures
        !json_parses(call.function.arguments@) ==> r is Err,
        json_parses(call.function.arguments@) ==> match op_of(
            call.function.name@,
            json_of(call.function.arguments@),
        ) {
            Ok(op) => r is Ok && r->Ok_0@ == op,
            Err(e) => r is Err && r->Err_0@ == e,
        },
{
    match parse_json(call.function.arguments.as_str()) {
        Err(e) => Err(e),
        Ok(args) => plan_tool(call.function.name.as_str(), &args),
    }
}

/// The result text of writing a file.
pub fn created_file_message(path: &str) -> (r: String)
    ensures
        r@ == "Created "@ + path@,
{
    String::from_str("Created ").concat(path)
}

/// The result text of creating a directory.
pub fn created_directory_message(path: &str) -> (r: String)
    ensures
        r@ == "Created directory "@ + path@,
{
    String::from_str("Created directory ").concat(path)
}

/// The output of a command: its standard output, then a `stderr:` block when
/// it wrote to standard error, then an `exit code:` line when it failed.
pub open spec fn command_text(stdout: Seq<char>, stderr: Seq<char>, success: bool, status: Seq<char>) -> Seq<char> {
    let with_err = if stderr.len() > 0 {
        stdout + "\nstderr: "@ + stderr
    } else {
        stdout
    };
    if success {
        with_err
    } else {
        with_err + "\nexit code: "@ + status
    }
}

/// The result text of a command.
pub fn command_result(stdout: String, stderr: &str, success: bool, status: &str) -> (r: String)
    ensures
        r@ == command_text(stdout@, stderr@, success, status@),
{
    let mut r = stdout;
    if !stderr.is_empty() {
        r.append("\nstderr: ");
        r.append(stderr);
    }
    if !success {
        r.append("\nexit code: ");
        r.append(status);
    }
    r
}

/// Lines joined by line breaks.
pub open spec fn join_lines(ls: Seq<Seq<char>>) -> Seq<char>
    decreases ls.len(),
{
    if ls.len() == 0 {
        Seq::empty()
    } else if ls.len() == 1 {
        ls[0]
    } else {
        join_lines(ls.drop_last()) + "\n"@ + ls.last()
    }
}

fn join_with_newlines(v: &Vec<String>) -> (r: String)
    ensures
        r@ == join_lines(views(v@)),
{
    let mut r = String::new();
    let mut i: usize = 0;
    while i < v.len()
        invariant
            i <= v@.len(),
            r@ == join_lines(views(v@.subrange(0, i as int))),
        decreases v@.len() - i,
    {
        proof {
            let a = views(v@.subrange(0, i + 1));
            assert(a.drop_last() =~= views(v@.subrange(0, i as int)));
            assert(a.last() == v@[i as int]@);
        }
        if i > 0 {
            r.append("\n");
        }
        r.append(v[i].as_str());
        proof {
            if i == 0 {
                assert(r@ =~= v@[0]@);
            }
        }
        i = i + 1;
    }
    proof {
        assert(v@.subrange(0, v@.len() as int) =~= v@);
    }
    r
}

proof fn lemma_text_le_antisymmetric(a: Seq<char>, b: Seq<char>)
    requires
        text_le(a, b),
        text_le(b, a),
    ensures
        a == b,
    decreases a.len(),
{
    if a.len() == 0 {
        assert(b.len() == 0);
        assert(a =~= b);
    } else {
        assert(b.len() > 0);
        if a[0] == b[0] {
            lemma_text_le_antisymmetric(a.drop_first(), b.drop_first());
            assert(a =~= seq![a[0]] + a.drop_first());
            assert(b =~= seq![b[0]] + b.drop_first());
        }
    }
}

proof fn lemma_sorted_drop_first(s: Seq<Seq<char>>)
    requires
        is_sorted_texts(s),
        s.len() > 0,
    ensures
        is_sorted_texts(s.drop_first()),
{
    let t = s.drop_first();
    assert forall|i: int, j: int| 0 <= i < j < t.len() implies text_le(#[trigger] t[i], #[trigger] t[j]) by {
        assert(t[i] == s[i + 1] && t[j] == s[j + 1]);
    }
}

/// Two sorted arrangements of the same texts are the same.
proof fn lemma_sorted_unique(s1: Seq<Seq<char>>, s2: Seq<Seq<char>>)
    requires
        is_sorted_texts(s1),
        is_sorted_texts(s2),
        s1.to_multiset() == s2.to_multiset(),
    ensures
        s1 == s2,
    decreases s1.len(),
{
    vstd::seq_lib::to_multiset_len(s1);
    vstd::seq_lib::to_multiset_len(s2);
    if s1.len() == 0 {
        assert(s2.len() == 0);
        assert(s1 =~= s2);
    } else {
        assert(s2.len() > 0);
        let x = s1[0];
        let y = s2[0];
        assert(s1.contains(x));
        vstd::seq_lib::to_multiset_contains(s1, x);
        vstd::seq_lib::to_multiset_contains(s2, x);
        assert(s2.contains(x));
        let k2 = choose|k: int| 0 <= k < s2.len() && s2[k] == x;
        assert(s2.contains(y));
        vstd::seq_lib::to_multiset_contains(s1, y);
        vstd::seq_lib::to_multiset_contains(s2, y);
        assert(s1.contains(y));
        let k1 = choose|k: int| 0 <= k < s1.len() && s1[k] == y;
        if k2 > 0 {
            assert(text_le(s2[0], s2[k2]));
        }
        if k1 > 0 {
            assert(text_le(s1[0], s1[k1]));
        }
        if k1 == 0 || k2 == 0 {
            assert(x == y);
        } else {
            lemma_text_le_antisymmetric(x, y);
        }
        vstd::seq_lib::to_multiset_remove(s1, 0);
        vstd::seq_lib::to_multiset_remove(s2, 0);
        assert(s1.remove(0) =~= s1.drop_first());
        assert(s2.remove(0) =~= s2.drop_first());
        lemma_sorted_drop_first(s1);
        lemma_sorted_drop_first(s2);
        lemma_sorted_unique(s1.drop_first(), s2.drop_first());
        assert(s1 =~= seq![x] + s1.drop_first());
        assert(s2 =~= seq![y] + s2.drop_first());
    }
}

/// Whether `s` is the texts of `m` in lexicographic order.
pub open spec fn sorted_arrangement(s: Seq<Seq<char>>, m: Multiset<Seq<char>>) -> bool {
    s.to_multiset() == m && is_sorted_texts(s)
}

/// The listing of a set of entry names: one per line, in lexicographic order.
pub open spec fn listing_text(m: Multiset<Seq<char>>) -> Seq<char> {
    join_lines(choose|s: Seq<Seq<char>>| sorted_arrangement(s, m))
}

/// Whatever order a directory's entries are enumerated in, their listing is
/// the names in lexicographic order, one per line: a function of which names
/// there are alone.
pub proof fn lemma_listing_sorted(s: Seq<Seq<char>>, m: Multiset<Seq<char>>)
    requires
        sorted_arrangement(s, m),
    ensures
        listing_text(m) == join_lines(s),
{
    let c = choose|t: Seq<Seq<char>>| sorted_arrangement(t, m);
    lemma_sorted_unique(s, c);
}

/// The result text of listing a directory: the entry names, sorted
/// lexicographically whatever order they came in, one per line.
pub fn listing_result(names: Vec<String>) -> (r: String)
    ensures
        r@ == listing_text(views(names@).to_multiset()),
{
    let mut v = names;
    sort_texts(&mut v);
    proof {
        lemma_listing_sorted(views(v@), views(names@).to_multiset());
    }
    join_with_newlines(&v)
}

/// The text recorded for a tool's outcome: errors are prefixed with `Error: `.
pub fn tool_result_text(outcome: Result<String, String>) -> (r: String)
    ensures
        match outcome {
            Ok(t) => r@ == t@,
            Err(e) => r@ == "Error: "@ + e@,
        },
{
    match outcome {
        Ok(t) => t,
        Err(e) => String::from_str("Error: ").concat(e.as_str()),
    }
}

/// A short preview of a tool call's arguments to show: the command of
/// `run_command`, `path: <path>` for the file and directory-listing tools.
pub open spec fn args_preview(name: Seq<char>, args: JsonView) -> Option<Seq<char>> {
    if !(args is Object) {
        None
    } else if name == "run_command"@ {
        text_arg(args, "command"@)
    } else if name == "read_file"@ || name == "write_file"@ || name == "create_file"@ || name
        == "list_dir"@ {
        match text_arg(args, "path"@) {
            Some(p) => Some("path: "@ + p),
            None => None,
        }
    } else {
        None
    }
}

/// The preview of parsed arguments.
pub fn preview_args(name: &str, args: &JsonValue) -> (r: Option<String>)
    ensures
        crate::message::opt_str(r) == args_preview(name@, args@),
{
    if !(args matches JsonValue::Object(_)) {
        return None;
    }
    if same_text(name, "run_command") {
        text_arg_of(args, "command")
    } else if same_text(name, "read_file") || same_text(name, "write_file") || same_text(name, "create_file")
        || same_text(name, "list_dir") {
        match text_arg_of(args, "path") {
            Some(p) => Some(String::from_str("path: ").concat(p.as_str())),
            None => None,
        }
    } else {
        None
    }
}

/// The preview of a tool call's arguments; none when they are not JSON.
pub fn truncate_args(args_json: &str, tool_name: &str) -> (r: Option<String>)
    ensures
        !json_parses(args_json@) ==> r is None,
        json_parses(args_json@) ==> crate::message::opt_str(r) == args_preview(
            tool_name@,
            json_of(args_json@),
        ),
{
    match parse_json(args_json) {
        Ok(v) => preview_args(tool_name, &v),
        Err(_) => None,
    }
}

} // verus!
