//! The fixed set of workspace tools offered to the model, and their
//! declarations in each backend's schema shape.

use vstd::prelude::*;
use crate::json::{ArrayBuilder, JsonValue, JsonView, ObjectBuilder};

verus! {

/// One parameter of a tool: its name and description; all are strings.
pub ghost struct ParamView {
    pub name: Seq<char>,
    pub description: Seq<char>,
}

pub ghost struct ToolView {
    pub name: Seq<char>,
    pub description: Seq<char>,
    pub params: Seq<ParamView>,
    pub required: Seq<Seq<char>>,
}

pub open spec fn param(name: Seq<char>, description: Seq<char>) -> ParamView {
    ParamView { name, description }
}

pub open spec fn path_param() -> ParamView {
    param("path"@, "File path"@)
}

pub open spec fn dir_param() -> ParamView {
    param("path"@, "Directory path"@)
}

/// The six tools, in the order they are declared.
pub open spec fn registry_view() -> Seq<ToolView> {
    seq![
        ToolView {
            name: "create_file"@,
            description: "Create a new file with the given path and content"@,
            params: seq![path_param(), param("content"@, "File content"@)],
            required: seq!["path"@, "content"@],
        },
        ToolView {
            name: "read_file"@,
            description: "Read contents of a file"@,
            params: seq![path_param()],
            required: seq!["path"@],
        },
        ToolView {
            name: "write_file"@,
            description: "Write or overwrite file content"@,
            params: seq![path_param(), param("content"@, "File content"@)],
            required: seq!["path"@, "content"@],
        },
        ToolView {
            name: "list_dir"@,
            description: "List directory contents"@,
            params: seq![dir_param()],
            required: seq!["path"@],
        },
        ToolView {
            name: "run_command"@,
            description: "Run a shell command"@,
            params: seq![param("command"@, "Shell command to run"@)],
            required: seq!["command"@],
        },
        ToolView {
            name: "create_directory"@,
            description: "Create a directory (and parent directories if needed)"@,
            params: seq![dir_param()],
            required: seq!["path"@],
        },
    ]
}

/// The JSON schema of one string parameter.
pub open spec fn param_schema(p: ParamView) -> JsonView {
    JsonView::Object(seq!["type"@, "description"@], seq![JsonView::Str("string"@), JsonView::Str(p.description)])
}

/// The JSON schema of a tool's parameter object.
pub open spec fn parameters_schema(t: ToolView) -> JsonView {
    JsonView::Object(
        seq!["type"@, "properties"@, "required"@],
        seq![
            JsonView::Str("object"@),
            JsonView::Object(
                t.params.map_values(|p: ParamView| p.name),
                t.params.map_values(|p: ParamView| param_schema(p)),
            ),
            JsonView::Array(t.required.map_values(|r: Seq<char>| JsonView::Str(r))),
        ],
    )
}

/// A function declaration: name, description and parameters.
pub open spec fn declaration(t: ToolView) -> JsonView {
    JsonView::Object(
        seq!["name"@, "description"@, "parameters"@],
        seq![JsonView::Str(t.name), JsonView::Str(t.description), parameters_schema(t)],
    )
}

/// The OpenAI-style tool entry: a declaration wrapped as a function tool.
pub open spec fn function_tool(t: ToolView) -> JsonView {
    JsonView::Object(seq!["type"@, "function"@], seq![JsonView::Str("function"@), declaration(t)])
}

struct ParamSpec {
    name: &'static str,
    description: &'static str,
}

struct ToolSpec {
    name: &'static str,
    description: &'static str,
    params: Vec<ParamSpec>,
    required: Vec<&'static str>,
}

spec fn tool_view(t: ToolSpec) -> ToolView {
    ToolView {
        name: t.name@,
        description: t.description@,
        params: t.params@.map_values(|p: ParamSpec| ParamView { name: p.name@, description: p.description@ }),
        required: t.required@.map_values(|r: &'static str| r@),
    }
}

fn spec_of(
    name: &'static str,
    description: &'static str,
    params: Vec<ParamSpec>,
    required: Vec<&'static str>,
) -> (r: ToolSpec)
    ensures
        r.name == name,
        r.description == description,
        r.params == params,
        r.required == required,
{
    ToolSpec { name, description, params, required }
}

fn registry() -> (r: Vec<ToolSpec>)
    ensures
        r@.map_values(|t: ToolSpec| tool_view(t)) == registry_view(),
{
    let path = "path";
    let content = "content";
    let r = vec![
        spec_of(
            "create_file",
            "Create a new file with the given path and content",
            vec![ParamSpec { name: path, description: "File path" }, ParamSpec { name: content, description: "File content" }],
            vec![path, content],
        ),
        spec_of(
            "read_file",
            "Read contents of a file",
            vec![ParamSpec { name: path, description: "File path" }],
            vec![path],
        ),
        spec_of(
            "write_file",
            "Write or overwrite file content",
            vec![ParamSpec { name: path, description: "File path" }, ParamSpec { name: content, description: "File content" }],
            vec![path, content],
        ),
        spec_of(
            "list_dir",
            "List directory contents",
            vec![ParamSpec { name: path, description: "Directory path" }],
            vec![path],
        ),
        spec_of(
            "run_command",
            "Run a shell command",
            vec![ParamSpec { name: "command", description: "Shell command to run" }],
            vec!["command"],
        ),
        spec_of(
            "create_directory",
            "Create a directory (and parent directories if needed)",
            vec![ParamSpec { name: path, description: "Directory path" }],
            vec![path],
        ),
    ];
    proof {
        let v = r@.map_values(|t: ToolSpec| tool_view(t));
        assert forall|i: int| 0 <= i < 6 implies #[trigger] v[i] == registry_view()[i] by {
            assert(tool_view(r@[i]).params =~= registry_view()[i].params);
            assert(tool_view(r@[i]).required =~= registry_view()[i].required);
        }
        assert(v =~= registry_view());
    }
    r
}

fn build_parameters(t: &ToolSpec) -> (r: JsonValue)
    ensures
        r@ == parameters_schema(tool_view(*t)),
{
    let mut props = ObjectBuilder::new();
    let mut i: usize = 0;
    let ghost tv = tool_view(*t);
    while i < t.params.len()
        invariant
            i <= t.params@.len(),
            tv == tool_view(*t),
            props.names() == tv.params.subrange(0, i as int).map_values(|p: ParamView| p.name),
            props.values() == tv.params.subrange(0, i as int).map_values(|p: ParamView| param_schema(p)),
        decreases t.params@.len() - i,
    {
        let mut schema = ObjectBuilder::new();
        schema.add_text("type", "string");
        schema.add_text("description", t.params[i].description);
        let s = schema.build();
        proof {
            assert(schema.names() =~= seq!["type"@, "description"@]);
            assert(schema.values() =~= seq![JsonView::Str("string"@), JsonView::Str(t.params@[i as int].description@)]);
        }
        props.add(t.params[i].name, s);
        proof {
            let ps = tv.params.subrange(0, i + 1);
            assert(ps.map_values(|p: ParamView| p.name) =~= tv.params.subrange(0, i as int).map_values(
                |p: ParamView| p.name,
            ).push(t.params@[i as int].name@));
            assert(ps.map_values(|p: ParamView| param_schema(p)) =~= tv.params.subrange(0, i as int).map_values(
                |p: ParamView| param_schema(p),
            ).push(s@));
        }
        i = i + 1;
    }
    let mut req = ArrayBuilder::new();
    let mut j: usize = 0;
    while j < t.required.len()
        invariant
            j <= t.required@.len(),
            tv == tool_view(*t),
            req@ == tv.required.subrange(0, j as int).map_values(|r: Seq<char>| JsonView::Str(r)),
        decreases t.required@.len() - j,
    {
        req.add(JsonValue::text(t.required[j]));
        proof {
            assert(tv.required.subrange(0, j + 1).map_values(|r: Seq<char>| JsonView::Str(r)) =~= tv.required.subrange(
                0,
                j as int,
            ).map_values(|r: Seq<char>| JsonView::Str(r)).push(JsonView::Str(t.required@[j as int]@)));
        }
        j = j + 1;
    }
    let props = props.build();
    let req = req.build();
    let mut o = ObjectBuilder::new();
    o.add_text("type", "object");
    o.add("properties", props);
    o.add("required", req);
    proof {
        assert(tv.params.subrange(0, tv.params.len() as int) =~= tv.params);
        assert(tv.required.subrange(0, tv.required.len() as int) =~= tv.required);
        assert(o.names() =~= seq!["type"@, "properties"@, "required"@]);
        assert(o.values() =~= seq![JsonView::Str("object"@), props@, req@]);
    }
    o.build()
}

fn build_declaration(t: &ToolSpec) -> (r: JsonValue)
    ensures
        r@ == declaration(tool_view(*t)),
{
    let params = build_parameters(t);
    let mut o = ObjectBuilder::new();
    o.add_text("name", t.name);
    o.add_text("description", t.description);
    o.add("parameters", params);
    proof {
        assert(o.names() =~= seq!["name"@, "description"@, "parameters"@]);
        assert(o.values() =~= seq![JsonView::Str(t.name@), JsonView::Str(t.description@), params@]);
    }
    o.build()
}

/// The tools as OpenAI-style function tools, in registry order.
pub fn tool_defs() -> (r: Vec<JsonValue>)
    ensures
        r@.len() == registry_view().len(),
        forall|i: int| 0 <= i < r@.len() ==> #[trigger] r@[i]@ == function_tool(registry_view()[i]),
{
    let reg = registry();
    let mut out: Vec<JsonValue> = Vec::new();
    let mut i: usize = 0;
    while i < reg.len()
        invariant
            i <= reg@.len(),
            reg@.map_values(|t: ToolSpec| tool_view(t)) == registry_view(),
            out@.len() == i,
            forall|k: int| 0 <= k < i ==> #[trigger] out@[k]@ == function_tool(registry_view()[k]),
        decreases reg@.len() - i,
    {
        let d = build_declaration(&reg[i]);
        let mut o = ObjectBuilder::new();
        o.add_text("type", "function");
        o.add("function", d);
        proof {
            assert(registry_view()[i as int] == tool_view(reg@[i as int]));
            assert(o.names() =~= seq!["type"@, "function"@]);
            assert(o.values() =~= seq![JsonView::Str("function"@), d@]);
        }
        out.push(o.build());
        i = i + 1;
    }
    out
}

/// The tools as Gemini-style function declarations, in registry order.
pub fn gemini_tool_defs() -> (r: Vec<JsonValue>)
    ensures
        r@.len() == registry_view().len(),
        forall|i: int| 0 <= i < r@.len() ==> #[trigger] r@[i]@ == declaration(registry_view()[i]),
{
    let reg = registry();
    let mut out: Vec<JsonValue> = Vec::new();
    let mut i: usize = 0;
    while i < reg.len()
        invariant
            i <= reg@.len(),
            reg@.map_values(|t: ToolSpec| tool_view(t)) == registry_view(),
            out@.len() == i,
            forall|k: int| 0 <= k < i ==> #[trigger] out@[k]@ == declaration(registry_view()[k]),
        decreases reg@.len() - i,
    {
        proof {
            assert(registry_view()[i as int] == tool_view(reg@[i as int]));
        }
        out.push(build_declaration(&reg[i]));
        i = i + 1;
    }
    out
}

} // verus!
