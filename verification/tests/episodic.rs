use torus_agent::memory::episodic::{Episode, EpisodeType, InMemoryEpisodicStore};
use torus_agent::memory::{EventId, MemoryError};

fn now_nanos() -> i64 {
    chrono::Utc::now().timestamp_nanos_opt().unwrap_or(0)
}

#[test]
fn test_episode_new() {
    let ep = Episode::new("test content", EpisodeType::Interaction, "user");
    assert_eq!(ep.content, "test content");
    assert_eq!(ep.episode_type, EpisodeType::Interaction);
    assert_eq!(ep.source, "user");
}

#[test]
fn test_episode_interaction() {
    let ep = Episode::interaction("hello", "user");
    assert_eq!(ep.episode_type, EpisodeType::Interaction);
}

#[test]
fn test_episode_tool_execution() {
    let ep = Episode::tool_execution("bash", "ls -la", "file1\nfile2");
    assert_eq!(ep.episode_type, EpisodeType::ToolExecution);
    assert!(ep.content.contains("bash"));
    assert!(ep.content.contains("ls -la"));
    assert_eq!(ep.metadata.get("tool_name").unwrap(), "bash");
}

#[test]
fn test_episode_with_run_id() {
    let ep = Episode::new("test", EpisodeType::Interaction, "user").with_run_id("run-123");
    assert_eq!(ep.run_id, Some("run-123".to_string()));
}

#[test]
fn test_episode_mark_accessed() {
    let mut ep = Episode::new("test", EpisodeType::Interaction, "user");
    assert_eq!(ep.access_count, 0);
    ep.mark_accessed();
    assert_eq!(ep.access_count, 1);
    ep.mark_accessed();
    assert_eq!(ep.access_count, 2);
}

#[test]
fn test_inmemory_record_and_get() {
    let mut store = InMemoryEpisodicStore::new(100);
    let ep = Episode::new("test content", EpisodeType::Interaction, "user");
    let id = store.record(ep.duplicate()).unwrap();

    let retrieved = store.get(&id).unwrap();
    assert_eq!(retrieved.content, "test content");
}

#[test]
fn test_inmemory_get_not_found() {
    let store = InMemoryEpisodicStore::new(100);
    let result = store.get(&EventId::new("nonexistent"));
    assert!(matches!(result, Err(MemoryError::EpisodeNotFound(_))));
}

#[test]
fn test_inmemory_get_and_access() {
    let mut store = InMemoryEpisodicStore::new(100);
    let ep = Episode::new("test", EpisodeType::Interaction, "user");
    let id = store.record(ep).unwrap();

    let retrieved = store.get_and_access(&id).unwrap();
    assert_eq!(retrieved.access_count, 1);

    let retrieved2 = store.get_and_access(&id).unwrap();
    assert_eq!(retrieved2.access_count, 2);
}

#[test]
fn test_inmemory_temporal_query() {
    let mut store = InMemoryEpisodicStore::new(100);

    store.record(Episode::new("event 1", EpisodeType::Interaction, "user")).unwrap();
    store.record(Episode::new("event 2", EpisodeType::Interaction, "user")).unwrap();

    let end = now_nanos();
    let start = end - 60 * 1_000_000_000;
    let results = store.temporal_query(start, end).unwrap();
    assert_eq!(results.len(), 2);
}

#[test]
fn test_inmemory_query_by_type() {
    let mut store = InMemoryEpisodicStore::new(100);

    store.record(Episode::new("interaction", EpisodeType::Interaction, "user")).unwrap();
    store.record(Episode::new("decision", EpisodeType::Decision, "agent")).unwrap();
    store.record(Episode::new("interaction 2", EpisodeType::Interaction, "user")).unwrap();

    let results = store.query_by_type(&EpisodeType::Interaction).unwrap();
    assert_eq!(results.len(), 2);
}

#[test]
fn test_inmemory_query_by_run() {
    let mut store = InMemoryEpisodicStore::new(100);

    store.record(Episode::new("ep1", EpisodeType::Interaction, "user").with_run_id("run-1")).unwrap();
    store.record(Episode::new("ep2", EpisodeType::Interaction, "user").with_run_id("run-2")).unwrap();
    store.record(Episode::new("ep3", EpisodeType::Interaction, "user").with_run_id("run-1")).unwrap();

    let results = store.query_by_run("run-1").unwrap();
    assert_eq!(results.len(), 2);
}

#[test]
fn test_inmemory_recent() {
    let mut store = InMemoryEpisodicStore::new(100);

    store.record(Episode::new("old", EpisodeType::Interaction, "user")).unwrap();
    store.record(Episode::new("newer", EpisodeType::Interaction, "user")).unwrap();
    store.record(Episode::new("newest", EpisodeType::Interaction, "user")).unwrap();

    let results = store.recent(2).unwrap();
    assert_eq!(results.len(), 2);
    assert!(results[0].content == "newest");
}

#[test]
fn episodic_test_inmemory_update() {
    let mut store = InMemoryEpisodicStore::new(100);
    let ep = Episode::new("original", EpisodeType::Interaction, "user");
    let id = store.record(ep).unwrap();

    let mut updated = store.get(&id).unwrap();
    updated.content = "updated".to_string();
    store.update(updated).unwrap();

    let retrieved = store.get(&id).unwrap();
    assert_eq!(retrieved.content, "updated");
}

#[test]
fn episodic_test_inmemory_delete() {
    let mut store = InMemoryEpisodicStore::new(100);
    let ep = Episode::new("test", EpisodeType::Interaction, "user");
    let id = store.record(ep).unwrap();

    assert_eq!(store.count(), 1);
    store.delete(&id).unwrap();
    assert_eq!(store.count(), 0);
}

#[test]
fn test_inmemory_eviction() {
    let mut store = InMemoryEpisodicStore::new(3);

    let id1 = store.record(Episode::new("first", EpisodeType::Interaction, "user")).unwrap();
    store.record(Episode::new("second", EpisodeType::Interaction, "user")).unwrap();
    store.record(Episode::new("third", EpisodeType::Interaction, "user")).unwrap();
    store.record(Episode::new("fourth", EpisodeType::Interaction, "user")).unwrap();

    assert_eq!(store.count(), 3);
    assert!(store.get(&id1).is_err());
}

#[test]
fn episodic_test_inmemory_clear() {
    let mut store = InMemoryEpisodicStore::new(100);
    store.record(Episode::new("test1", EpisodeType::Interaction, "user")).unwrap();
    store.record(Episode::new("test2", EpisodeType::Interaction, "user")).unwrap();

    assert_eq!(store.count(), 2);
    store.clear();
    assert_eq!(store.count(), 0);
}

#[test]
fn test_episode_age_seconds() {
    let ep = Episode::new("test", EpisodeType::Interaction, "user");
    assert!(ep.age_seconds() < 2);
}

#[test]
fn zero_capacity_store_keeps_the_last_episode() {
    let mut store = InMemoryEpisodicStore::new(0);
    store.record(Episode::new("a", EpisodeType::Interaction, "user")).unwrap();
    let b = store.record(Episode::new("b", EpisodeType::Interaction, "user")).unwrap();
    assert_eq!(store.count(), 1);
    assert_eq!(store.get(&b).unwrap().content, "b");
}

#[test]
fn most_accessed_and_missing_operations() {
    let mut store = InMemoryEpisodicStore::new(10);
    let a = store.record(Episode::new("a", EpisodeType::Interaction, "user")).unwrap();
    let b = store.record(Episode::new("b", EpisodeType::Interaction, "user")).unwrap();
    store.get_and_access(&b).unwrap();
    store.get_and_access(&b).unwrap();
    store.get_and_access(&a).unwrap();
    let top = store.most_accessed(1).unwrap();
    assert_eq!(top.len(), 1);
    assert_eq!(top[0].content, "b");
    let missing = EventId::new("none");
    assert!(matches!(store.delete(&missing), Err(MemoryError::EpisodeNotFound(_))));
    assert!(matches!(store.get_and_access(&missing), Err(MemoryError::EpisodeNotFound(_))));
    let absent = Episode::new("x", EpisodeType::Custom("note".to_string()), "user");
    assert!(matches!(store.update(absent), Err(MemoryError::EpisodeNotFound(_))));
    let custom = store.query_by_type(&EpisodeType::Custom("note".to_string())).unwrap();
    assert!(custom.is_empty());
    assert_eq!(store.all_episodes().len(), 2);
}

#[test]
fn episode_texts_and_metadata() {
    let ep = Episode::tool_execution("grep", "-r x", "none");
    assert_eq!(ep.content, "Tool: grep\nInput: -r x\nOutput: none");
    assert_eq!(ep.source, "grep");
    let d = Episode::decision("go left", "shorter");
    assert_eq!(d.source, "agent");
    assert_eq!(d.metadata.get("reason").unwrap(), "shorter");
    assert_eq!(f32::from_bits(d.importance_bits), 0.5);
}

#[test]
fn test_episode_with_importance() {
    let ep = Episode::new("test", EpisodeType::Decision, "agent").with_importance(0.9f32.to_bits());
    assert!((f32::from_bits(ep.importance_bits) - 0.9).abs() < 0.001);
}

#[test]
fn test_episode_with_importance_clamped() {
    let ep = Episode::new("test", EpisodeType::Decision, "agent").with_importance(1.5f32.to_bits());
    assert!((f32::from_bits(ep.importance_bits) - 1.0).abs() < 0.001);
}
