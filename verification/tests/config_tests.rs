use mcp_scan::config::{parse_and_validate, ConfigShape, MCPConfig, ResolvedConfig};
use mcp_scan::mcp_types::Server;

fn shape_of(c: &ResolvedConfig) -> ConfigShape {
    match c {
        ResolvedConfig::Claude(_) => ConfigShape::Claude,
        ResolvedConfig::VSCodeFile(_) => ConfigShape::VSCodeFile,
        ResolvedConfig::VSCodeMCP(_) => ConfigShape::VSCodeMCP,
        ResolvedConfig::Cursor(_) => ConfigShape::Cursor,
    }
}

#[test]
fn test_cursor_config() {
    // A camel-cased server map whose lone server names neither a full
    // URL-addressed descriptor (no headers) nor a command: no shape
    // accepts it, and the rejection names the shapes that were tried.
    let json_data = r#"
        {
            "mcpServers": {
                "test": {
                    "url": "0.0.0.0:8080/sse"
                }
            }
        }"#;
    let resolved = parse_and_validate(json_data);
    assert!(resolved.is_err());
    assert_eq!(
        resolved.err().unwrap(),
        "Could not parse config file with models: [\"ClaudeConfigFile\", \"VSCodeConfigFile\", \"VSCodeMCPConfig\", \"CursorMCPConfig\"]"
    );
}

#[test]
fn claude_shape_resolves_a_stdio_server() {
    let text = r#"{"mcp_servers": {"calc": {"command": "calc-server", "args": ["--fast"]}}}"#;
    let resolved = parse_and_validate(text).unwrap();
    assert!(matches!(shape_of(&resolved), ConfigShape::Claude));
    let servers = resolved.get_servers();
    assert_eq!(servers.len(), 1);
    assert_eq!(servers[0].0, "calc");
    match &servers[0].1 {
        Server::Stdio(s) => {
            assert_eq!(s.command, "calc-server");
            assert_eq!(s.args.as_ref().unwrap().len(), 1);
            assert_eq!(s.args.as_ref().unwrap()[0], "--fast");
            assert!(s.env.is_none());
        }
        Server::SSE(_) => panic!("expected a process-spawned server"),
    }
}

#[test]
fn cursor_shape_resolves_an_sse_server() {
    let text = r#"{
        "inputs": [],
        "mcpServers": {
            "remote": {
                "url": "http://127.0.0.1:9000/sse",
                "headers": {"x-scan-label": "inventory"}
            }
        }
    }"#;
    let resolved = parse_and_validate(text).unwrap();
    assert!(matches!(shape_of(&resolved), ConfigShape::Cursor));
    let servers = resolved.get_servers();
    assert_eq!(servers.len(), 1);
    match &servers[0].1 {
        Server::SSE(s) => {
            assert_eq!(s.url, "http://127.0.0.1:9000/sse");
            assert_eq!(s.headers.len(), 1);
            assert_eq!(s.headers[0].0, "x-scan-label");
        }
        Server::Stdio(_) => panic!("expected a URL-addressed server"),
    }
}

#[test]
fn nested_and_flat_vscode_shapes_resolve() {
    let nested = r#"{"mcp": {"servers": {"a": {"command": "run-a"}}}}"#;
    let resolved = parse_and_validate(nested).unwrap();
    assert!(matches!(shape_of(&resolved), ConfigShape::VSCodeFile));
    assert_eq!(resolved.get_servers().len(), 1);

    let flat = r#"{"servers": {"a": {"command": "run-a"}}, "inputs": null}"#;
    let resolved = parse_and_validate(flat).unwrap();
    assert!(matches!(shape_of(&resolved), ConfigShape::VSCodeMCP));
    assert_eq!(resolved.get_servers().len(), 1);
}

#[test]
fn ambiguous_documents_resolve_to_the_first_shape() {
    let text = r#"{
        "mcp_servers": {"first": {"command": "one"}},
        "mcpServers": {"second": {"command": "two"}}
    }"#;
    let resolved = parse_and_validate(text).unwrap();
    assert!(matches!(shape_of(&resolved), ConfigShape::Claude));
    let servers = resolved.get_servers();
    assert_eq!(servers.len(), 1);
    assert_eq!(servers[0].0, "first");
}

#[test]
fn malformed_inputs_entry_fails_the_shape() {
    let text = r#"{"servers": {"a": {"command": "run-a"}}, "inputs": "not-a-list"}"#;
    assert!(parse_and_validate(text).is_err());
}

#[test]
fn text_that_is_not_json_is_rejected_with_the_shape_list() {
    let resolved = parse_and_validate("not json at all {");
    assert!(resolved.is_err());
    let msg = resolved.err().unwrap();
    assert!(msg.contains("ClaudeConfigFile"));
    assert!(msg.contains("CursorMCPConfig"));
}

#[test]
fn url_server_without_headers_is_not_an_sse_descriptor() {
    // Without a headers map the URL-addressed shape is incomplete, and
    // without a command the process shape is too.
    let text = r#"{"mcp_servers": {"test": {"url": "http://h/sse"}}}"#;
    assert!(parse_and_validate(text).is_err());
}

#[test]
fn set_servers_replaces_the_map() {
    let text = r#"{"mcp_servers": {"calc": {"command": "calc-server"}}}"#;
    let mut resolved = parse_and_validate(text).unwrap();
    resolved.set_servers(Vec::new());
    assert!(resolved.get_servers().is_empty());
}
