use torus_agent::memory::consolidation::{
    concept_words, merge_episodes, top_by_count, word_counts, ConsolidationResult,
};
use torus_agent::memory::episodic::Episode;
use torus_agent::memory::episodic::EpisodeType;
use torus_agent::memory::integration::{
    bridge_summary, type_slot, CreditLedger, IntegrationConsolidationResult, IntegrationStats,
    StreamGraphAdapter,
};
use torus_agent::memory::{ConceptId, EventId, MemoryConfig, MemoryError, MemoryStats};

#[test]
fn test_consolidation_result_had_changes() {
    let mut result = ConsolidationResult::default();
    assert!(!result.had_changes());

    result.episodes_merged = 1;
    assert!(result.had_changes());
}

#[test]
fn test_integration_stats_default() {
    let stats = IntegrationStats::default();
    assert_eq!(stats.coherence_records, 0);
    assert_eq!(stats.credits_received, 0);
}

#[test]
fn test_event_id_generate() {
    let id1 = EventId::generate();
    let id2 = EventId::generate();
    assert!(id1.0.starts_with("evt-"));
    assert_ne!(id1, id2);
}

#[test]
fn test_concept_id_generate() {
    let id1 = ConceptId::generate();
    let id2 = ConceptId::generate();
    assert!(id1.0.starts_with("cpt-"));
    assert_ne!(id1, id2);
}

#[test]
fn test_memory_error_display() {
    let err = MemoryError::EpisodeNotFound(EventId::new("test-123"));
    assert!(err.to_display_string().contains("test-123"));
}

#[test]
fn test_memory_config_default() {
    let config = MemoryConfig::default();
    assert_eq!(config.embedding_dim, 384);
    assert_eq!(config.max_episodes, 10000);
    assert!(config.auto_consolidate);
}

#[test]
fn memory_error_texts_are_exact() {
    let e = MemoryError::DimensionMismatch { expected: 384, got: 3 };
    assert_eq!(e.to_display_string(), "Embedding dimension mismatch: expected 384, got 3");
    let e = MemoryError::ConceptNotFound(ConceptId::new("cpt-1"));
    assert_eq!(e.to_display_string(), "Concept not found: cpt-1");
    assert_eq!(MemoryError::Storage("full".to_string()).to_display_string(), "Storage error: full");
}

#[test]
fn generated_ids_have_three_parts() {
    let id = EventId::generate();
    let parts: Vec<&str> = id.0.split('-').collect();
    assert_eq!(parts.len(), 3);
    assert_eq!(parts[2].len(), 8);
    assert!(parts[2].chars().all(|c| c.is_ascii_hexdigit()));
    assert!(parts[1].parse::<i64>().is_ok());
}

#[test]
fn counters_start_at_zero() {
    let s = MemoryStats::default();
    assert_eq!(s.episodes_recorded + s.concepts_stored + s.queries_performed, 0);
    let r = IntegrationConsolidationResult::default();
    assert_eq!(r.episode, 0);
    let mut pruned = ConsolidationResult::default();
    pruned.concepts_extracted = 2;
    assert!(pruned.had_changes());
    assert_eq!(StreamGraphAdapter::new(16).feature_dim(), 16);
}

#[test]
fn test_extract_keywords() {
    let keywords = torus_agent::memory::keywords::extract_keywords(
        "The quick brown fox jumps over the lazy dog",
    );
    assert!(keywords.contains(&"quick".to_string()));
    assert!(keywords.contains(&"brown".to_string()));
    assert!(!keywords.contains(&"the".to_string())); // Too short
    assert_eq!(keywords, vec!["quick", "brown", "jumps", "over", "lazy"]);
}

#[test]
fn keywords_are_lowercased_and_split_on_any_whitespace() {
    let keywords = torus_agent::memory::keywords::extract_keywords("  HELLO\tWorld\n\u{e9}t\u{e9} ab  ");
    assert_eq!(keywords, vec!["hello", "world", "\u{e9}t\u{e9}"]);
}

#[test]
fn ledger_keeps_the_latest_hundred_events() {
    let mut ledger = CreditLedger::new();
    for i in 0..105 {
        ledger.track_event(EventId::new(&format!("e{}", i)));
    }
    assert_eq!(ledger.recent_events().len(), 100);
    assert_eq!(ledger.recent_events()[0], EventId::new("e5"));
    assert_eq!(ledger.recent_events()[99], EventId::new("e104"));
}

#[test]
fn ledger_gives_a_goal_the_events_recent_at_association() {
    let mut ledger = CreditLedger::new();
    ledger.track_event(EventId::new("a"));
    ledger.track_event(EventId::new("b"));
    ledger.associate_with_goal(7);
    ledger.track_event(EventId::new("c"));
    assert_eq!(ledger.take_goal_events(7), vec![EventId::new("a"), EventId::new("b")]);
    assert!(ledger.take_goal_events(7).is_empty());
    assert!(ledger.take_goal_events(8).is_empty());
}

#[test]
fn bridge_summary_text_is_exact() {
    let mut stats = IntegrationStats::default();
    stats.coherence_records = 3;
    stats.coherence_retrievals = 2;
    stats.credits_received = 1;
    assert_eq!(
        bridge_summary(4, &stats),
        "MemoryBridge: 4 episodes, 3 coherence_records, 2 retrievals, 1 credits"
    );
}

#[test]
fn feature_slots_follow_code_points_and_positions() {
    let adapter = StreamGraphAdapter::new(10);
    assert_eq!(adapter.content_slots("ab"), vec![(97 % 10) as usize, (98 + 1) % 10]);
    assert_eq!(adapter.content_slots(""), Vec::<usize>::new());
    assert_eq!(type_slot(&EpisodeType::Interaction), 1);
    assert_eq!(type_slot(&EpisodeType::Custom("x".to_string())), 8);
}

#[test]
fn concept_words_of_an_episode() {
    let words = concept_words("The quick brown quick quick quick fox jumps over the lazy dog");
    assert_eq!(words, vec!["quick", "brown", "quick", "quick", "quick", "jumps"]);
    let counts = word_counts(&words);
    assert_eq!(
        counts,
        vec![("quick".to_string(), 4), ("brown".to_string(), 1), ("jumps".to_string(), 1)]
    );
    assert_eq!(concept_words("(Hello), ---- ***** World!!"), vec!["hello", "world"]);
}

#[test]
fn merged_episode_keeps_the_earlier_identity() {
    let a = Episode::new("first content", EpisodeType::Interaction, "user")
        .with_importance(0.6f32.to_bits())
        .with_metadata("k", "from-a");
    let mut b = Episode::new("second content", EpisodeType::Interaction, "user")
        .with_importance(0.8f32.to_bits())
        .with_metadata("k", "from-b")
        .with_metadata("only-b", "x");
    b.timestamp_nanos = a.timestamp_nanos + 1;
    b.access_count = 3;
    let importance = (0.6f32 + 0.8f32) / 2.0;
    let merged = merge_episodes(&b, &a, importance.to_bits());
    assert!(merged.content.contains("first"));
    assert!(merged.content.contains("second"));
    assert_eq!(merged.content, "first content\n---\nsecond content");
    assert!((f32::from_bits(merged.importance_bits) - 0.7).abs() < 0.001);
    assert_eq!(merged.id, a.id);
    assert_eq!(merged.access_count, 3);
    assert_eq!(merged.metadata.get("k"), Some(&"from-a".to_string()));
    assert_eq!(merged.metadata.get("only-b"), Some(&"x".to_string()));
    assert_eq!(merged.metadata.get("merged_from"), Some(&b.id.to_display_string()));
}

#[test]
fn top_words_by_count_are_stable() {
    let counts: Vec<(String, usize)> = vec![
        ("alpha".to_string(), 1),
        ("beta".to_string(), 3),
        ("gamma".to_string(), 1),
        ("delta".to_string(), 3),
        ("epsilon".to_string(), 2),
        ("zeta".to_string(), 1),
    ];
    let top = top_by_count(&counts, 5);
    let names: Vec<&str> = top.iter().map(|(w, _)| w.as_str()).collect();
    assert_eq!(names, vec!["beta", "delta", "epsilon", "alpha", "gamma"]);
    assert_eq!(top[2].1, 2);
    assert_eq!(top_by_count(&counts, 10).len(), 6);
    assert!(top_by_count(&Vec::new(), 5).is_empty());
}
