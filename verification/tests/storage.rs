use sleet::flows::{BlockDefinition, BlockType, FlowDefinition};
use sleet::orchestration::config::StorageConfig;
use sleet::orchestration::errors::OrchestrationError;
use sleet::orchestration::storage::{session_ids_of, FileSessionStorage};
use sleet::runtime::value::JsonDatum;

fn storage_config(session: Option<&str>, checkpoint: Option<&str>) -> StorageConfig {
    StorageConfig {
        session_storage_path: session.map(|s| s.to_string()),
        checkpoint_storage_path: checkpoint.map(|s| s.to_string()),
        log_storage_path: None,
    }
}

#[test]
fn storage_needs_a_session_path() {
    match FileSessionStorage::new(storage_config(None, Some("/c"))) {
        Err(OrchestrationError::ConfigurationError(m)) => assert_eq!(m, "Session storage path not configured"),
        other => panic!("unexpected {other:?}"),
    }
}

#[test]
fn checkpoints_default_under_the_session_path() {
    let s = FileSessionStorage::new(storage_config(Some("/data/sessions"), None)).unwrap();
    assert_eq!(s.session_dir(), "/data/sessions");
    assert_eq!(s.checkpoint_dir(), "/data/sessions/checkpoints");
    let s = FileSessionStorage::new(storage_config(Some("/a"), Some("/b"))).unwrap();
    assert_eq!(s.checkpoint_dir(), "/b");
}

#[test]
fn stored_file_names() {
    assert_eq!(FileSessionStorage::session_file_name("s1"), "s1.json");
    assert_eq!(FileSessionStorage::checkpoint_file_name("s1", "c9"), "s1_c9.json");
}

#[test]
fn listing_keeps_json_files_by_name() {
    let names: Vec<String> =
        ["a.json", "notes.txt", "b.json.json", ".json", "c.JSON", "d.json"].iter().map(|s| s.to_string()).collect();
    assert_eq!(session_ids_of(&names), vec!["a".to_string(), "b".to_string(), "".to_string(), "d".to_string()]);
}

#[test]
fn flow_definitions_find_their_first_block() {
    let mut flow = FlowDefinition::new("f", "start");
    flow.add_block(BlockDefinition::new("start", BlockType::Terminate))
        .add_block(BlockDefinition::new(
            "loop",
            BlockType::Break { loop_id: "l".to_string() },
        ))
        .add_block(BlockDefinition::new("start", BlockType::Continue { loop_id: "l".to_string() }))
        .add_participant("agent-1")
        .set_initial_state(JsonDatum { text: "{}".to_string(), identity: "{}".to_string(), truthy: false });
    assert_eq!(flow.blocks.len(), 3);
    assert_eq!(flow.participants, vec!["agent-1".to_string()]);
    assert!(matches!(flow.get_block("start").map(|b| &b.block_type), Some(BlockType::Terminate)));
    assert!(flow.get_block("missing").is_none());
    assert!(flow.initial_state.is_some() && flow.state_schema.is_none());
}
