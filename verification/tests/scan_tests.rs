use mcp_scan::config::{parse_and_validate, MCPConfig};
use mcp_scan::mcp_types::{Entity, EntityInfo, Server, VerifyResult};
use mcp_scan::scan::{collect_entities, MCPScanner, ScanReport, ServerOutcome};
use mcp_scan::storage_file::StorageFile;
use mcp_scan::verify_api::{interpret_verification_response, prepare_verification};

fn tool(name: &str, description: Option<&str>) -> Entity {
    Entity::Tool(EntityInfo {
        name: name.to_string(),
        description: description.map(|d| d.to_string()),
    })
}

fn prompt(name: &str, description: Option<&str>) -> Entity {
    Entity::Prompt(EntityInfo {
        name: name.to_string(),
        description: description.map(|d| d.to_string()),
    })
}

#[test]
fn collection_keeps_the_kind_order_and_skips_absent_kinds() {
    let tools = vec![tool("t1", None), tool("t2", None)];
    let prompts = vec![prompt("p1", None)];
    let flat = collect_entities(Some(tools), Some(prompts), None);
    assert_eq!(flat.len(), 3);
    assert!(matches!(flat[0], Entity::Tool(_)));
    assert!(matches!(flat[1], Entity::Tool(_)));
    assert!(matches!(flat[2], Entity::Prompt(_)));
    let none = collect_entities(None, None, None);
    assert!(none.is_empty());
}

#[test]
fn a_whitelisted_entity_is_verified_outright() {
    let mut storage = StorageFile::empty();
    let e = tool("add", Some("Adds two numbers"));
    let hash = storage.compute_hash(Some(&e)).unwrap();
    storage.add_to_whitelist("tool", "add", &hash);
    let mut scanner = MCPScanner::new(storage, "", 10, true, 1);
    let incoming = VerifyResult { value: Some(false), message: Some("failed - flagged".to_string()) };
    let report = scanner.process_entity("srv", &e, &incoming);
    assert!(report.whitelisted);
    assert_eq!(report.result.value, Some(true));
    assert_eq!(report.result.message.as_deref(), Some("whitelisted failed - flagged"));
}

#[test]
fn a_failing_entity_gets_the_whitelist_hint() {
    let storage = StorageFile::empty();
    let mut scanner = MCPScanner::new(storage, "", 10, true, 1);
    let e = tool("add", Some("Adds two numbers"));
    let hash = scanner.storage_file.compute_hash(Some(&e)).unwrap();
    let incoming = VerifyResult { value: Some(false), message: Some("failed - flagged".to_string()) };
    let report = scanner.process_entity("srv", &e, &incoming);
    assert!(!report.whitelisted);
    assert!(!report.changed);
    assert_eq!(report.result.value, Some(false));
    let note = report.additional.unwrap();
    assert_eq!(
        note,
        format!("You can whitelist this tool by running `mcp-scan whitelist tool 'add' {}`", hash)
    );
}

#[test]
fn a_drifted_entity_reports_the_previous_description() {
    let storage = StorageFile::empty();
    let mut scanner = MCPScanner::new(storage, "", 10, true, 1);
    let before = tool("add", Some("Adds two numbers"));
    let after = tool("add", Some("Adds two numbers loudly"));
    let ok = VerifyResult { value: Some(true), message: Some("verified".to_string()) };
    scanner.process_entity("srv", &before, &ok);
    let report = scanner.process_entity("srv", &after, &ok);
    assert!(report.changed);
    let prev = report.previous.unwrap();
    assert_eq!(prev.description.as_deref(), Some("Adds two numbers"));
    let note = report.additional.unwrap();
    assert!(note.starts_with("Previous description("));
    assert!(note.contains("Adds two numbers"));
    assert!(note.contains("You can whitelist this tool"));
}

#[test]
fn empty_verification_results_judge_and_record_nothing() {
    let storage = StorageFile::empty();
    let mut scanner = MCPScanner::new(storage, "", 10, true, 1);
    let entities = vec![tool("add", Some("Adds two numbers"))];
    let reports = scanner.verify_and_report_entities(
        "srv",
        &entities,
        Vec::new(),
        Vec::new(),
        Vec::new(),
    );
    assert!(reports.is_empty());
    assert!(scanner.storage_file.scanned_entities.is_empty());
}

#[test]
fn one_unreachable_server_does_not_abort_the_file_scan() {
    // One configuration file declares an unreachable server and a
    // reachable one with two tools. The unreachable server's failure is
    // recorded and the scan proceeds to collect, verify and record the
    // second server in full; the file counts as a partial success.
    let text = r#"{
        "mcp_servers": {
            "down": {"command": "no-such-server"},
            "up": {"command": "good-server"}
        }
    }"#;
    let resolved = parse_and_validate(text).unwrap();
    let servers = resolved.get_servers();
    assert_eq!(servers.len(), 2);
    assert!(matches!(servers[0].1, Server::Stdio(_)));

    let mut scanner = MCPScanner::new(StorageFile::empty(), "", 10, true, 1);
    let mut report = ScanReport::new("config.json");

    // First server: the connection attempt failed.
    report.record_failure("down".to_string(), "connection refused".to_string());

    // Second server: two tools were collected; the verification
    // response carried no errors.
    let entities = collect_entities(
        Some(vec![tool("add", Some("Adds two numbers")), tool("mul", Some("Multiplies"))]),
        None,
        None,
    );
    let request = prepare_verification(&entities).unwrap();
    assert_eq!(request.num_tools, 2);
    let (t, p, r) = interpret_verification_response(
        request.num_tools,
        request.num_prompts,
        request.num_resources,
        Some("{}"),
    );
    let entity_reports = scanner.verify_and_report_entities("up", &entities, t, p, r);
    assert_eq!(entity_reports.len(), 2);
    assert_eq!(entity_reports[0].result.value, Some(true));
    report.record_scanned("up".to_string(), entities.len(), entity_reports);

    assert_eq!(report.servers.len(), 2);
    assert!(matches!(report.servers[0].outcome, ServerOutcome::Failed(_)));
    assert!(matches!(report.servers[1].outcome, ServerOutcome::Scanned { .. }));
    assert_eq!(report.failed_count(), 1);
    assert!(report.partial_success());
    assert_eq!(report.summary(), (2, 2));
    assert_eq!(scanner.storage_file.scanned_entities.len(), 2);
}
