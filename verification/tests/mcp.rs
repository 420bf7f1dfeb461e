use erebus::mcp::{handle_line, resolve_tool_commands, tool_failure_message, McpAction, McpTool};

fn tools() -> Vec<McpTool> {
    vec![McpTool {
        name: "echo".into(),
        command: vec!["cat".into()],
    }]
}

#[test]
fn tools_list_returns_tool_names() {
    let action = handle_line(r#"{"jsonrpc":"2.0","id":1,"method":"tools/list"}"#, &tools()).unwrap();
    match action {
        McpAction::ListTools { id, names } => {
            assert_eq!(names[0], "echo");
            assert_eq!(id, Some(b"1".to_vec()));
        }
        other => panic!("unexpected reply {other:?}"),
    }
}

#[test]
fn tools_call_runs_echo_tool() {
    let action = handle_line(
        r#"{"jsonrpc":"2.0","id":2,"method":"tools/call","params":{"name":"echo","arguments":{"x":1}}}"#,
        &tools(),
    )
    .unwrap();
    match action {
        McpAction::CallTool { id, index, arguments } => {
            assert_eq!(index, 0);
            assert_eq!(id, Some(b"2".to_vec()));
            assert_eq!(arguments, Some(b"{\"x\":1}".to_vec()));
        }
        other => panic!("unexpected reply {other:?}"),
    }
}

#[test]
fn initialize_and_notifications() {
    assert!(matches!(
        handle_line(r#"{"jsonrpc":"2.0","id":0,"method":"initialize"}"#, &tools()),
        Some(McpAction::Initialize { .. })
    ));
    assert!(handle_line(r#"{"method":"notifications/initialized"}"#, &tools()).is_none());
    assert!(handle_line(r#"{"method":"notifications/cancelled"}"#, &tools()).is_none());
}

#[test]
fn unknown_method_is_a_json_rpc_error() {
    match handle_line(r#"{"jsonrpc":"2.0","id":"a","method":"resources/list"}"#, &tools()) {
        Some(McpAction::Error { id, code, message }) => {
            assert_eq!(code, -32601);
            assert_eq!(message, "method not found: resources/list");
            assert_eq!(id, Some(b"\"a\"".to_vec()));
        }
        other => panic!("unexpected reply {other:?}"),
    }
}

#[test]
fn malformed_lines_and_unknown_tools_get_no_reply() {
    assert!(handle_line("not json", &tools()).is_none());
    assert!(handle_line(r#"{"id":1}"#, &tools()).is_none());
    assert!(handle_line(r#"{"method":5}"#, &tools()).is_none());
    assert!(handle_line(
        r#"{"method":"tools/call","params":{"name":"nope"}}"#,
        &tools()
    )
    .is_none());
    assert!(handle_line(r#"{"method":"tools/call","params":{}}"#, &tools()).is_none());
}

#[test]
fn first_tool_of_a_name_is_called() {
    let ts = vec![
        McpTool { name: "a".into(), command: vec!["x".into()] },
        McpTool { name: "b".into(), command: vec!["y".into()] },
        McpTool { name: "b".into(), command: vec!["z".into()] },
    ];
    match handle_line(r#"{"method":"tools/call","params":{"name":"b"}}"#, &ts) {
        Some(McpAction::CallTool { index, arguments, .. }) => {
            assert_eq!(index, 1);
            assert!(arguments.is_none());
        }
        other => panic!("unexpected reply {other:?}"),
    }
}

#[test]
fn tool_commands_resolve_against_rootfs() {
    let ts = vec![
        McpTool { name: "rel".into(), command: vec!["tools/rel".into(), "--flag".into()] },
        McpTool { name: "abs".into(), command: vec!["/bin/cat".into(), "-n".into()] },
    ];
    let r = resolve_tool_commands(&ts, "/cache/rootfs");
    assert_eq!(r[0].name, "rel");
    assert_eq!(r[0].command, vec!["/cache/rootfs/tools/rel".to_string()]);
    assert_eq!(r[1].command, vec!["/bin/cat".to_string(), "-n".to_string()]);
}

#[test]
fn tool_failure_message_uses_debug_form_of_code() {
    assert_eq!(tool_failure_message("echo", Some(2)), "tool 'echo' exited with status Some(2)");
    assert_eq!(tool_failure_message("echo", None), "tool 'echo' exited with status None");
    assert_eq!(tool_failure_message("t", Some(-1)), "tool 't' exited with status Some(-1)");
}

#[test]
fn reply_echoes_structured_ids_as_json_text() {
    match handle_line(r#"{"id":{"b":2,"a":[1, 2]},"method":"initialize"}"#, &tools()) {
        Some(McpAction::Initialize { id }) => {
            assert_eq!(id, Some(br#"{"a":[1,2],"b":2}"#.to_vec()));
        }
        other => panic!("unexpected reply {other:?}"),
    }
    match handle_line(r#"{"method":"initialize"}"#, &tools()) {
        Some(McpAction::Initialize { id }) => assert_eq!(id, None),
        other => panic!("unexpected reply {other:?}"),
    }
}
