//! The launcher's MCP (Model Context Protocol) server: which reply each
//! newline-delimited JSON-RPC request gets. Running a tool and writing the
//! replies are the caller's work.
use crate::build_args::{int_string, int_text};
use crate::fspath::{join, opt_chars};
use crate::jsonread::{json_string_at, json_string_at_path, json_value_at, json_value_bytes_at, opt_bytes, path_view};
use crate::text::{join_path, owned, push_str, str_eq, str_starts_with, has_prefix};
use vstd::prelude::*;

verus! {

/// A tool exposed over MCP: its name and the command that runs it.
#[derive(Debug, Clone)]
pub struct McpTool {
    pub name: String,
    pub command: Vec<String>,
}

/// A tool whose command runs from the extracted rootfs: a relative
/// `command[0]` (`tools/<name>`) becomes `<rootfs>/<command[0]>` and is the
/// whole command; an absolute one is kept with its arguments.
pub open spec fn resolved_tool(t: McpTool, rootfs: Seq<char>) -> (Seq<char>, Seq<Seq<char>>) {
    let c = t.command@;
    if has_prefix(c[0]@, "/"@) {
        (t.name@, Seq::new(c.len(), |i: int| c[i]@))
    } else {
        (t.name@, seq![join_path(rootfs, c[0]@)])
    }
}

/// The plain values of a tool.
pub open spec fn tool_view(t: McpTool) -> (Seq<char>, Seq<Seq<char>>) {
    (t.name@, Seq::new(t.command@.len(), |i: int| t.command@[i]@))
}

/// Resolves the embedded tools' commands against the rootfs.
pub fn resolve_tool_commands(tools: &Vec<McpTool>, rootfs: &str) -> (r: Vec<McpTool>)
    requires
        forall|i: int| 0 <= i < tools@.len() ==> (#[trigger] tools@[i]).command@.len() > 0,
    ensures
        r@.len() == tools@.len(),
        forall|i: int|
            0 <= i < r@.len() ==> tool_view(#[trigger] r@[i]) == resolved_tool(tools@[i], rootfs@),
{
    let n = tools.len();
    let mut out: Vec<McpTool> = Vec::new();
    let mut i: usize = 0;
    while i < n
        invariant
            n == tools@.len(),
            i <= n,
            forall|q: int| 0 <= q < tools@.len() ==> (#[trigger] tools@[q]).command@.len() > 0,
            out@.len() == i,
            forall|q: int|
                0 <= q < i ==> tool_view(#[trigger] out@[q]) == resolved_tool(tools@[q], rootfs@),
        decreases n - i,
    {
        let t = &tools[i];
        let first = t.command[0].as_str();
        let command: Vec<String> = if str_starts_with(first, "/") {
            let mut c: Vec<String> = Vec::new();
            let mut k: usize = 0;
            while k < t.command.len()
                invariant
                    k <= t.command@.len(),
                    c@.len() == k,
                    forall|q: int| 0 <= q < k ==> (#[trigger] c@[q])@ == t.command@[q]@,
                decreases t.command@.len() - k,
            {
                c.push(owned(t.command[k].as_str()));
                k = k + 1;
            }
            c
        } else {
            vec![join(rootfs, first)]
        };
        let nt = McpTool { name: owned(t.name.as_str()), command };
        assert(tool_view(nt) == resolved_tool(tools@[i as int], rootfs@)) by {
            let c = tools@[i as int].command@;
            if has_prefix(c[0]@, "/"@) {
                assert(Seq::new(nt.command@.len(), |q: int| nt.command@[q]@) =~= Seq::new(
                    c.len(),
                    |q: int| c[q]@,
                ));
            } else {
                assert(Seq::new(nt.command@.len(), |q: int| nt.command@[q]@) =~= seq![
                    join_path(rootfs@, c[0]@),
                ]);
            }
        }
        out.push(nt);
        i = i + 1;
    }
    out
}

/// What a request line holds, as far as the server reads it.
#[derive(Debug, Clone)]
pub struct McpRequest {
    /// The string `method`.
    pub method: Option<String>,
    /// The `id` as JSON text, echoed in the reply.
    pub id: Option<Vec<u8>>,
    /// The string `params.name` (the tool to call).
    pub tool_name: Option<String>,
    /// `params.arguments` as JSON text, handed to the tool on its stdin.
    pub arguments: Option<Vec<u8>>,
}

/// The reply a request gets; ids and arguments are JSON texts.
#[derive(Debug)]
pub enum McpAction {
    /// Answer `initialize` with the server's capabilities.
    Initialize { id: Option<Vec<u8>> },
    /// List the tools by name.
    ListTools { id: Option<Vec<u8>>, names: Vec<String> },
    /// Run the tool at this index with the arguments on its stdin.
    CallTool { id: Option<Vec<u8>>, index: usize, arguments: Option<Vec<u8>> },
    /// A JSON-RPC error.
    Error { id: Option<Vec<u8>>, code: i64, message: String },
}

/// The kind of reply, as plain values: 0 initialize, 1 list (the names),
/// 2 call (the tool index), 3 error (code and message).
pub open spec fn action_view(a: McpAction) -> (int, Seq<Seq<char>>, int, Seq<char>) {
    match a {
        McpAction::Initialize { .. } => (0, Seq::empty(), 0, Seq::empty()),
        McpAction::ListTools { names, .. } => (1, Seq::new(names@.len(), |i: int| names@[i]@), 0, Seq::empty()),
        McpAction::CallTool { index, .. } => (2, Seq::empty(), index as int, Seq::empty()),
        McpAction::Error { code, message, .. } => (3, Seq::empty(), code as int, message@),
    }
}

/// The request `id` a reply carries, as JSON text.
pub open spec fn action_id(a: McpAction) -> Option<Seq<u8>> {
    match a {
        McpAction::Initialize { id } => opt_bytes(id),
        McpAction::ListTools { id, .. } => opt_bytes(id),
        McpAction::CallTool { id, .. } => opt_bytes(id),
        McpAction::Error { id, .. } => opt_bytes(id),
    }
}

/// The index of the first tool named `name`.
pub open spec fn tool_index(tools: Seq<McpTool>, name: Seq<char>) -> Option<int>
    decreases tools.len(),
{
    if tools.len() == 0 {
        None
    } else if tools.last().name@ == name && tool_index(tools.drop_last(), name) is None {
        Some(tools.len() - 1)
    } else {
        tool_index(tools.drop_last(), name)
    }
}

/// The reply to a request with string `method` and tool name `tool`: none
/// for a missing method or a notification, an error for an unknown method,
/// none for a call of an unknown tool.
pub open spec fn reply_of(
    method: Option<Seq<char>>,
    tool: Option<Seq<char>>,
    tools: Seq<McpTool>,
) -> Option<(int, Seq<Seq<char>>, int, Seq<char>)> {
    match method {
        None => None,
        Some(m) => if m == "initialize"@ {
            Some((0, Seq::empty(), 0, Seq::empty()))
        } else if m == "notifications/initialized"@ || m == "notifications/cancelled"@ {
            None
        } else if m == "tools/list"@ {
            Some((1, Seq::new(tools.len(), |i: int| tools[i].name@), 0, Seq::empty()))
        } else if m == "tools/call"@ {
            match tool {
                Some(t) => match tool_index(tools, t) {
                    Some(i) => Some((2, Seq::empty(), i, Seq::empty())),
                    None => None,
                },
                None => None,
            }
        } else {
            Some((3, Seq::empty(), -32601, "method not found: "@ + m))
        },
    }
}

/// The index of the first tool named `name`.
fn find_tool(tools: &Vec<McpTool>, name: &str) -> (r: Option<usize>)
    ensures
        match r {
            Some(i) => tool_index(tools@, name@) == Some(i as int),
            None => tool_index(tools@, name@) is None,
        },
{
    let n = tools.len();
    let mut i: usize = 0;
    while i < n
        invariant
            n == tools@.len(),
            i <= n,
            tool_index(tools@.take(i as int), name@) is None,
        decreases n - i,
    {
        assert(tools@.take(i + 1).drop_last() =~= tools@.take(i as int));
        if str_eq(tools[i].name.as_str(), name) {
            proof {
                lemma_tool_index_prefix(tools@, name@, i as int);
            }
            return Some(i);
        }
        i = i + 1;
    }
    assert(tools@.take(n as int) =~= tools@);
    None
}

/// A tool found in a prefix, with none before it, is found in the whole list.
proof fn lemma_tool_index_prefix(tools: Seq<McpTool>, name: Seq<char>, i: int)
    requires
        0 <= i < tools.len(),
        tools[i].name@ == name,
        tool_index(tools.take(i), name) is None,
    ensures
        tool_index(tools, name) == Some(i),
    decreases tools.len(),
{
    if i < tools.len() - 1 {
        let t = tools.drop_last();
        assert(t.take(i) =~= tools.take(i));
        lemma_tool_index_prefix(t, name, i);
    } else {
        assert(tools.take(i) =~= tools.drop_last());
    }
}

/// The reply to a parsed request.
pub fn handle_request(req: McpRequest, tools: &Vec<McpTool>) -> (r: Option<McpAction>)
    ensures
        match r {
            Some(a) => reply_of(opt_chars(req.method), opt_chars(req.tool_name), tools@) == Some(
                action_view(a),
            ),
            None => reply_of(opt_chars(req.method), opt_chars(req.tool_name), tools@) is None,
        },
        r matches Some(a) ==> action_id(a) == opt_bytes(req.id),
        r matches Some(McpAction::CallTool { arguments, .. }) ==> opt_bytes(arguments) == opt_bytes(
            req.arguments,
        ),
{
    let method = match &req.method {
        Some(m) => m,
        None => {
            return None;
        },
    };
    let m = method.as_str();
    if str_eq(m, "initialize") {
        return Some(McpAction::Initialize { id: req.id });
    }
    if str_eq(m, "notifications/initialized") || str_eq(m, "notifications/cancelled") {
        return None;
    }
    if str_eq(m, "tools/list") {
        let mut names: Vec<String> = Vec::new();
        let mut i: usize = 0;
        while i < tools.len()
            invariant
                i <= tools@.len(),
                names@.len() == i,
                forall|q: int| 0 <= q < i ==> (#[trigger] names@[q])@ == tools@[q].name@,
            decreases tools@.len() - i,
        {
            names.push(owned(tools[i].name.as_str()));
            i = i + 1;
        }
        let a = McpAction::ListTools { id: req.id, names };
        assert(Seq::new(names@.len(), |q: int| names@[q]@) =~= Seq::new(
            tools@.len(),
            |q: int| tools@[q].name@,
        ));
        return Some(a);
    }
    if str_eq(m, "tools/call") {
        let name = match &req.tool_name {
            Some(t) => t,
            None => {
                return None;
            },
        };
        return match find_tool(tools, name.as_str()) {
            Some(index) => Some(McpAction::CallTool { id: req.id, index, arguments: req.arguments }),
            None => None,
        };
    }
    let mut message = owned("method not found: ");
    push_str(&mut message, m);
    Some(McpAction::Error { id: req.id, code: -32601, message })
}

/// The string `method` of a request line.
pub open spec fn line_method(line: Seq<char>) -> Option<Seq<char>> {
    json_string_at_path(line, seq!["method"@])
}

/// The string `params.name` of a request line.
pub open spec fn line_tool(line: Seq<char>) -> Option<Seq<char>> {
    json_string_at_path(line, seq!["params"@, "name"@])
}

/// The reply to one request line (none for a line that is not JSON, which
/// has no `method`). Every reply carries the line's `id`, and a tool call
/// the line's `params.arguments`, each as the JSON text `serde_json` writes
/// for it.
pub fn handle_line(line: &str, tools: &Vec<McpTool>) -> (r: Option<McpAction>)
    ensures
        match r {
            Some(a) => reply_of(line_method(line@), line_tool(line@), tools@) == Some(action_view(a)),
            None => reply_of(line_method(line@), line_tool(line@), tools@) is None,
        },
        r matches Some(a) ==> action_id(a) == json_value_bytes_at(line@, seq!["id"@]),
        r matches Some(McpAction::CallTool { arguments, .. }) ==> opt_bytes(arguments)
            == json_value_bytes_at(line@, seq!["params"@, "arguments"@]),
{
    let method_path: [&str; 1] = ["method"];
    let name_path: [&str; 2] = ["params", "name"];
    let id_path: [&str; 1] = ["id"];
    let args_path: [&str; 2] = ["params", "arguments"];
    assert(path_view(method_path@) =~= seq!["method"@]);
    assert(path_view(name_path@) =~= seq!["params"@, "name"@]);
    assert(path_view(id_path@) =~= seq!["id"@]);
    assert(path_view(args_path@) =~= seq!["params"@, "arguments"@]);
    let req = McpRequest {
        method: json_string_at(line, method_path.as_slice()),
        id: json_value_at(line, id_path.as_slice()),
        tool_name: json_string_at(line, name_path.as_slice()),
        arguments: json_value_at(line, args_path.as_slice()),
    };
    handle_request(req, tools)
}

/// The error text of a tool that did not succeed, with its exit code
/// (`None` when a signal ended it), as `{:?}` writes it.
pub open spec fn tool_failure_text(name: Seq<char>, code: Option<i32>) -> Seq<char> {
    "tool '"@ + name + "' exited with status "@ + match code {
        Some(c) => "Some("@ + int_text(c as int) + ")"@,
        None => "None"@,
    }
}

/// The JSON-RPC error text of a failed tool run.
pub fn tool_failure_message(name: &str, code: Option<i32>) -> (r: String)
    ensures
        r@ == tool_failure_text(name@, code),
{
    let mut m = owned("tool '");
    push_str(&mut m, name);
    push_str(&mut m, "' exited with status ");
    match code {
        Some(c) => {
            push_str(&mut m, "Some(");
            let d = int_string(c);
            push_str(&mut m, d.as_str());
            push_str(&mut m, ")");
        },
        None => {
            push_str(&mut m, "None");
        },
    }
    m
}

} // verus!
