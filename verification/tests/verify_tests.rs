use mcp_scan::mcp_types::{Entity, EntityInfo};
use mcp_scan::verify_api::{interpret_verification_response, prepare_verification};

fn tool(name: &str, description: Option<&str>) -> Entity {
    Entity::Tool(EntityInfo {
        name: name.to_string(),
        description: description.map(|d| d.to_string()),
    })
}

fn prompt(name: &str, description: Option<&str>) -> Entity {
    Entity::Prompt(EntityInfo {
        name: name.to_string(),
        description: description.map(|d| d.to_string()),
    })
}

fn resource(name: &str, description: Option<&str>) -> Entity {
    Entity::Resource(EntityInfo {
        name: name.to_string(),
        description: description.map(|d| d.to_string()),
    })
}

fn sample_entities() -> Vec<Entity> {
    vec![
        tool("t1", Some("first tool")),
        tool("t2", None),
        prompt("p1", Some("a prompt")),
        resource("r1", Some("a resource")),
        resource("r2", Some("another resource")),
        resource("r3", None),
    ]
}

#[test]
fn empty_input_short_circuits_without_a_request() {
    let request = prepare_verification(&Vec::new());
    assert!(request.is_none());
    let (t, p, r) = interpret_verification_response(0, 0, 0, None);
    assert!(t.is_empty());
    assert!(p.is_empty());
    assert!(r.is_empty());
}

#[test]
fn request_counts_and_messages_follow_the_entities() {
    let request = prepare_verification(&sample_entities()).unwrap();
    assert_eq!(request.num_tools, 2);
    assert_eq!(request.num_prompts, 1);
    assert_eq!(request.num_resources, 3);
    let body: serde_json::Value = serde_json::from_str(&request.body).unwrap();
    let messages = body.get("messages").unwrap().as_array().unwrap();
    assert_eq!(messages.len(), 6);
    for m in messages {
        assert_eq!(m.get("role").unwrap().as_str().unwrap(), "system");
    }
    assert_eq!(
        messages[0].get("content").unwrap().as_str().unwrap(),
        "Tool Name:t1\nTool Description:Some(\"first tool\")"
    );
    assert_eq!(
        messages[1].get("content").unwrap().as_str().unwrap(),
        "Tool Name:t2\nTool Description:None"
    );
    assert_eq!(
        messages[2].get("content").unwrap().as_str().unwrap(),
        "Prompt Name:p1\nPrompt Description:Some(\"a prompt\")"
    );
}

#[test]
fn results_are_segmented_by_the_submitted_counts() {
    let (t, p, r) = interpret_verification_response(2, 1, 3, Some("{}"));
    assert_eq!(t.len(), 2);
    assert_eq!(p.len(), 1);
    assert_eq!(r.len(), 3);
    for v in t.iter().chain(p.iter()).chain(r.iter()) {
        assert_eq!(v.value, Some(true));
        assert_eq!(v.message.as_deref(), Some("verified"));
    }
}

#[test]
fn an_error_entry_flips_exactly_its_index() {
    let body = r#"{"errors": [{"key": "tool,0", "args": ["malicious", "description"]}]}"#;
    let (t, p, r) = interpret_verification_response(2, 1, 3, Some(body));
    assert_eq!(t[0].value, Some(false));
    assert_eq!(t[0].message.as_deref(), Some("failed - malicious description"));
    assert_eq!(t[1].value, Some(true));
    assert_eq!(p[0].value, Some(true));
    for v in &r {
        assert_eq!(v.value, Some(true));
    }
}

#[test]
fn an_error_index_lands_in_the_right_segment() {
    let body = r#"{"errors": [{"key": "prompt,2", "args": ["bad"]}]}"#;
    let (t, p, r) = interpret_verification_response(2, 1, 3, Some(body));
    assert_eq!(t[0].value, Some(true));
    assert_eq!(t[1].value, Some(true));
    assert_eq!(p[0].value, Some(false));
    assert_eq!(p[0].message.as_deref(), Some("failed - bad"));
    for v in &r {
        assert_eq!(v.value, Some(true));
    }
}

#[test]
fn unavailable_or_unreadable_responses_yield_empty_segments() {
    let (t, p, r) = interpret_verification_response(2, 1, 3, None);
    assert!(t.is_empty() && p.is_empty() && r.is_empty());
    let (t, p, r) = interpret_verification_response(2, 1, 3, Some("not json"));
    assert!(t.is_empty() && p.is_empty() && r.is_empty());
}

#[test]
fn malformed_or_out_of_range_errors_change_nothing() {
    let body = r#"{"errors": [
        {"key": "nocomma", "args": ["x"]},
        {"key": "tool,99", "args": ["x"]},
        {"key": "tool,zero", "args": ["x"]},
        {"args": ["x"]},
        {"key": "tool,1", "args": "not-a-list"}
    ]}"#;
    let (t, p, r) = interpret_verification_response(2, 1, 3, Some(body));
    for v in t.iter().chain(p.iter()).chain(r.iter()) {
        assert_eq!(v.value, Some(true));
    }
}

#[test]
fn later_errors_overwrite_earlier_ones_at_the_same_index() {
    let body = r#"{"errors": [
        {"key": "tool,0", "args": ["first"]},
        {"key": "tool,0", "args": ["second", "reason"]}
    ]}"#;
    let (t, _, _) = interpret_verification_response(2, 0, 0, Some(body));
    assert_eq!(t[0].value, Some(false));
    assert_eq!(t[0].message.as_deref(), Some("failed - second reason"));
}
