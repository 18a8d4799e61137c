use mcp_scan::mcp_types::{Entity, EntityInfo};
use mcp_scan::storage_file::{split_legacy, StorageFile};

fn tool(name: &str, description: Option<&str>) -> Entity {
    Entity::Tool(EntityInfo {
        name: name.to_string(),
        description: description.map(|d| d.to_string()),
    })
}

fn prompt(name: &str, description: Option<&str>) -> Entity {
    Entity::Prompt(EntityInfo {
        name: name.to_string(),
        description: description.map(|d| d.to_string()),
    })
}

#[test]
fn fingerprint_is_deterministic_across_entities_and_servers() {
    let storage = StorageFile::empty();
    let a = tool("add", Some("Adds two numbers"));
    let b = prompt("other_name", Some("Adds two numbers"));
    let ha = storage.compute_hash(Some(&a)).unwrap();
    let hb = storage.compute_hash(Some(&b)).unwrap();
    assert_eq!(ha, hb);
    let again = storage.compute_hash(Some(&a)).unwrap();
    assert_eq!(ha, again);
}

#[test]
fn fingerprint_has_known_value() {
    let storage = StorageFile::empty();
    let e = tool("alphabet", Some("abcdefghijklmnopqrstuvwxyz"));
    let h = storage.compute_hash(Some(&e)).unwrap();
    assert_eq!(h, "c3fcd3d76192e4007dfb496cca67e13b");
}

#[test]
fn entity_without_description_has_no_fingerprint() {
    let storage = StorageFile::empty();
    let e = tool("mute", None);
    assert!(storage.compute_hash(Some(&e)).is_none());
    assert!(storage.compute_hash(None).is_none());
    assert!(!storage.is_whitelisted(&e));
}

#[test]
fn rescan_with_unchanged_description_reports_no_drift() {
    let mut storage = StorageFile::empty();
    let e = tool("add", Some("Adds two numbers"));
    let (first, prev0) = storage.check_and_update("srv", &e, true);
    assert_eq!(first.value, Some(false));
    assert!(prev0.is_none());
    let (second, prev1) = storage.check_and_update("srv", &e, true);
    assert_eq!(second.value, Some(false));
    assert!(second.message.is_none());
    assert!(prev1.is_some());
    let (third, _) = storage.check_and_update("srv", &e, true);
    assert_eq!(third.value, Some(false));
}

#[test]
fn rescan_with_changed_description_reports_drift_and_prior_record() {
    let mut storage = StorageFile::empty();
    let before = tool("add", Some("Adds two numbers"));
    let after = tool("add", Some("Adds two numbers silently"));
    let old_hash = storage.compute_hash(Some(&before)).unwrap();
    storage.check_and_update("srv", &before, true);
    let (changed, prev) = storage.check_and_update("srv", &after, true);
    assert_eq!(changed.value, Some(true));
    let prev = prev.unwrap();
    assert_eq!(prev.hash, old_hash);
    assert_eq!(prev.kind, "tool");
    assert_eq!(prev.description.as_deref(), Some("Adds two numbers"));
    let msg = changed.message.unwrap();
    assert!(msg.starts_with("tool description changed since previous scan at "));
}

#[test]
fn whitelisting_is_by_hash_value_and_covers_equal_descriptions() {
    let mut storage = StorageFile::empty();
    let a = tool("add", Some("Adds two numbers"));
    let b = tool("plus", Some("Adds two numbers"));
    let c = prompt("sum", Some("Adds two numbers"));
    let other = tool("mul", Some("Multiplies two numbers"));
    assert!(!storage.is_whitelisted(&a));
    let hash = storage.compute_hash(Some(&a)).unwrap();
    storage.add_to_whitelist("tool", "add", &hash);
    assert!(storage.is_whitelisted(&a));
    assert!(storage.is_whitelisted(&b));
    assert!(storage.is_whitelisted(&c));
    assert!(!storage.is_whitelisted(&other));
}

#[test]
fn reset_clears_whitelist_and_keeps_history() {
    let mut storage = StorageFile::empty();
    let e = tool("add", Some("Adds two numbers"));
    storage.check_and_update("srv", &e, true);
    let hash = storage.compute_hash(Some(&e)).unwrap();
    storage.add_to_whitelist("tool", "add", &hash);
    assert_eq!(storage.whitelist.len(), 1);
    storage.reset_whitelist();
    assert_eq!(storage.whitelist.len(), 0);
    assert_eq!(storage.scanned_entities.len(), 1);
    assert!(!storage.is_whitelisted(&e));
}

#[test]
fn legacy_single_file_splits_into_whitelist_and_records() {
    let legacy_text = r#"{
        "__whitelist": {"tool.add": "abc123"},
        "server.tool.add": {
            "hash": "abc123",
            "type": "tool",
            "verified": true,
            "timestamp": "2024-01-02T03:04:05+00:00",
            "description": "Adds two numbers"
        }
    }"#;
    let (scanned, whitelist) = split_legacy(legacy_text).unwrap();
    assert_eq!(whitelist.len(), 1);
    assert_eq!(whitelist[0].0, "tool.add");
    assert_eq!(whitelist[0].1, "abc123");
    assert_eq!(scanned.len(), 1);
    assert_eq!(scanned[0].0, "server.tool.add");
    assert_eq!(scanned[0].1.hash, "abc123");
    assert_eq!(scanned[0].1.kind, "tool");
    assert!(scanned[0].1.verified);
    assert_eq!(scanned[0].1.timestamp, "2024-01-02T03:04:05+00:00");
    assert_eq!(scanned[0].1.description.as_deref(), Some("Adds two numbers"));

    // The split store persists as the two current documents, and loading
    // them back is a plain load: no further migration applies to them.
    let store = StorageFile { scanned_entities: scanned, whitelist };
    let (scanned_text, whitelist_text) = store.save();
    let reparsed = serde_json::from_str::<serde_json::Value>(&whitelist_text).unwrap();
    assert_eq!(reparsed, serde_json::from_str::<serde_json::Value>("{\"tool.add\":\"abc123\"}").unwrap());
    let reloaded = StorageFile::new(Some(&scanned_text), Some(&whitelist_text));
    assert_eq!(reloaded.whitelist.len(), 1);
    assert_eq!(reloaded.whitelist[0].0, "tool.add");
    assert_eq!(reloaded.scanned_entities.len(), 1);
    assert_eq!(reloaded.scanned_entities[0].1.hash, "abc123");
    assert_eq!(
        reloaded.scanned_entities[0].1.timestamp,
        "2024-01-02T03:04:05+00:00"
    );
}

#[test]
fn legacy_split_without_whitelist_key_yields_empty_whitelist() {
    let (scanned, whitelist) = split_legacy(
        r#"{"s.tool.t": {"hash": "h", "type": "tool", "verified": false,
            "timestamp": "2024-01-02T03:04:05+00:00", "description": null}}"#,
    )
    .unwrap();
    assert!(whitelist.is_empty());
    assert_eq!(scanned.len(), 1);
    assert!(scanned[0].1.description.is_none());
}

#[test]
fn save_and_reload_round_trips_the_store() {
    let mut storage = StorageFile::empty();
    let e = tool("add", Some("Adds two numbers"));
    storage.check_and_update("srv", &e, true);
    let hash = storage.compute_hash(Some(&e)).unwrap();
    storage.add_to_whitelist("tool", "add", &hash);
    let (scanned_text, whitelist_text) = storage.save();
    let reloaded = StorageFile::new(Some(&scanned_text), Some(&whitelist_text));
    assert_eq!(reloaded.scanned_entities.len(), 1);
    assert_eq!(reloaded.scanned_entities[0].0, "srv.tool.add");
    assert_eq!(reloaded.scanned_entities[0].1.hash, hash);
    assert_eq!(reloaded.whitelist.len(), 1);
    assert_eq!(reloaded.whitelist[0].0, "tool.add");
    assert_eq!(reloaded.whitelist[0].1, hash);
}

#[test]
fn missing_or_damaged_documents_degrade_to_an_empty_store() {
    let empty = StorageFile::new(None, None);
    assert!(empty.scanned_entities.is_empty());
    assert!(empty.whitelist.is_empty());
    let degraded = StorageFile::new(Some("[1, 2, 3]"), Some("not json"));
    assert!(degraded.scanned_entities.is_empty());
    assert!(degraded.whitelist.is_empty());
}

#[test]
fn drift_message_shows_the_previous_scan_instant() {
    let mut storage = StorageFile::empty();
    let before = tool("add", Some("Adds two numbers"));
    let after = tool("add", Some("Adds two numbers loudly"));
    storage.check_and_update_at("srv", &before, true, "2024-01-02T03:04:05+00:00".to_string());
    let (changed, _) = storage.check_and_update("srv", &after, true);
    assert_eq!(changed.value, Some(true));
    assert_eq!(
        changed.message.as_deref(),
        Some("tool description changed since previous scan at 02/01/2024, 03:04:05")
    );
}

#[test]
fn whitelist_rows_split_kind_and_name_at_first_dot() {
    let mut storage = StorageFile::empty();
    storage.add_to_whitelist("tool", "add.extra", "h1");
    storage.add_to_whitelist("prompt", "greet", "h2");
    let mut rows = storage.whitelist_rows();
    rows.sort();
    assert_eq!(rows.len(), 2);
    assert_eq!(rows[0].0, "prompt");
    assert_eq!(rows[0].1, "greet");
    assert_eq!(rows[0].2, "h2");
    assert_eq!(rows[1].0, "tool");
    assert_eq!(rows[1].1, "add.extra");
    assert_eq!(rows[1].2, "h1");
}
