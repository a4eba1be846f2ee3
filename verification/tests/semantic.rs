use torus_agent::memory::semantic::{
    clamp_unit_bits, Concept, ConceptRelation, InMemorySemanticStore, RelationType,
};
use torus_agent::memory::{ConceptId, MemoryError};

fn bits(v: &[f32]) -> Vec<u32> {
    v.iter().map(|x| x.to_bits()).collect()
}

fn values(v: &[u32]) -> Vec<f32> {
    v.iter().map(|b| f32::from_bits(*b)).collect()
}

#[test]
fn test_concept_new() {
    let concept = Concept::new("test", bits(&[0.1, 0.2, 0.3]));
    assert_eq!(concept.name, "test");
    assert_eq!(values(&concept.embedding_bits), vec![0.1, 0.2, 0.3]);
    assert!(f32::from_bits(concept.confidence_bits) > 0.99);
}

#[test]
fn test_concept_with_description() {
    let concept = Concept::new("test", vec![]).with_description("A test concept");
    assert_eq!(concept.description, "A test concept");
}

#[test]
fn test_concept_with_relation() {
    let target_id = ConceptId::new("target-1");
    let concept = Concept::new("test", vec![]).with_relation(
        target_id.clone(),
        RelationType::IsA,
        0.9f32.to_bits(),
    );
    assert_eq!(concept.relations.len(), 1);
    assert_eq!(concept.relations[0].target, target_id);
}

#[test]
fn test_concept_has_embedding() {
    let with_emb = Concept::new("test", bits(&[0.1, 0.2]));
    let without_emb = Concept::new("test", vec![]);

    assert!(with_emb.has_embedding());
    assert!(!without_emb.has_embedding());
    assert_eq!(with_emb.embedding_dim(), 2);
}

#[test]
fn test_concept_add_relation() {
    let mut concept = Concept::new("test", vec![]);
    let target = ConceptId::new("target");
    concept.add_relation(target.clone(), RelationType::SimilarTo, 0.8f32.to_bits());

    assert_eq!(concept.relations.len(), 1);
}

#[test]
fn test_concept_remove_relation() {
    let target = ConceptId::new("target");
    let mut concept =
        Concept::new("test", vec![]).with_relation(target.clone(), RelationType::IsA, 0.9f32.to_bits());

    concept.remove_relation(&target);
    assert!(concept.relations.is_empty());
}

#[test]
fn test_concept_relations_of_type() {
    let t1 = ConceptId::new("t1");
    let t2 = ConceptId::new("t2");
    let concept = Concept::new("test", vec![])
        .with_relation(t1, RelationType::IsA, 0.9f32.to_bits())
        .with_relation(t2, RelationType::SimilarTo, 0.5f32.to_bits());

    let is_a_rels = concept.relations_of_type(&RelationType::IsA);
    assert_eq!(is_a_rels.len(), 1);
}

#[test]
fn test_inmemory_store_and_get() {
    let mut store = InMemorySemanticStore::new(3, 100);
    let concept = Concept::new("test", bits(&[0.1, 0.2, 0.3]));
    let id = store.store(concept).unwrap();

    let retrieved = store.get(&id).unwrap();
    assert_eq!(retrieved.name, "test");
}

#[test]
fn test_inmemory_dimension_mismatch() {
    let mut store = InMemorySemanticStore::new(3, 100);
    let concept = Concept::new("test", bits(&[0.1, 0.2])); // Wrong dimension

    let result = store.store(concept);
    assert!(matches!(result, Err(MemoryError::DimensionMismatch { .. })));
}

#[test]
fn test_inmemory_find_by_name() {
    let mut store = InMemorySemanticStore::new(3, 100);
    store.store(Concept::new("Hello World", bits(&[0.1, 0.2, 0.3]))).unwrap();

    let found = store.find_by_name("hello world").unwrap();
    assert!(found.is_some());
    assert_eq!(found.unwrap().name, "Hello World");
}

#[test]
fn test_inmemory_search_by_name() {
    let mut store = InMemorySemanticStore::new(3, 100);
    store.store(Concept::new("apple", bits(&[0.1, 0.2, 0.3]))).unwrap();
    store.store(Concept::new("pineapple", bits(&[0.1, 0.2, 0.3]))).unwrap();
    store.store(Concept::new("banana", bits(&[0.1, 0.2, 0.3]))).unwrap();

    let results = store.search_by_name("apple").unwrap();
    assert_eq!(results.len(), 2);
}

#[test]
fn test_inmemory_nearest_dimension_mismatch() {
    let store = InMemorySemanticStore::new(4, 100);
    let query = bits(&[0.1, 0.2]);
    let result = store.nearest_candidates(query.len());
    assert!(matches!(result, Err(MemoryError::DimensionMismatch { .. })));
}

#[test]
fn test_inmemory_related_to() {
    let mut store = InMemorySemanticStore::new(3, 100);

    let parent = Concept::new("animal", bits(&[0.1, 0.2, 0.3]));
    let parent_id = parent.id.clone();
    store.store(parent).unwrap();

    let child = Concept::new("dog", bits(&[0.1, 0.2, 0.3])).with_relation(
        parent_id.clone(),
        RelationType::IsA,
        0.9f32.to_bits(),
    );
    let child_id = child.id.clone();
    store.store(child).unwrap();

    let related = store.related_to(&child_id, Some(&RelationType::IsA)).unwrap();
    assert_eq!(related.len(), 1);
    assert_eq!(related[0].name, "animal");
}

#[test]
fn semantic_test_inmemory_update() {
    let mut store = InMemorySemanticStore::new(3, 100);
    let concept = Concept::new("test", bits(&[0.1, 0.2, 0.3]));
    let id = store.store(concept).unwrap();

    let mut updated = store.get(&id).unwrap();
    updated.confidence_bits = 0.5f32.to_bits();
    store.update(updated).unwrap();

    let retrieved = store.get(&id).unwrap();
    assert!((f32::from_bits(retrieved.confidence_bits) - 0.5).abs() < 0.001);
}

#[test]
fn semantic_test_inmemory_delete() {
    let mut store = InMemorySemanticStore::new(3, 100);
    let concept = Concept::new("test", bits(&[0.1, 0.2, 0.3]));
    let id = store.store(concept).unwrap();

    assert_eq!(store.count(), 1);
    store.delete(&id).unwrap();
    assert_eq!(store.count(), 0);
}

#[test]
fn test_inmemory_all_ids() {
    let mut store = InMemorySemanticStore::new(3, 100);
    let id1 = store.store(Concept::new("a", bits(&[0.1, 0.2, 0.3]))).unwrap();
    let id2 = store.store(Concept::new("b", bits(&[0.1, 0.2, 0.3]))).unwrap();

    let ids = store.all_ids();
    assert_eq!(ids.len(), 2);
    assert!(ids.contains(&id1));
    assert!(ids.contains(&id2));
}

#[test]
fn semantic_test_inmemory_clear() {
    let mut store = InMemorySemanticStore::new(3, 100);
    store.store(Concept::new("a", bits(&[0.1, 0.2, 0.3]))).unwrap();
    store.store(Concept::new("b", bits(&[0.1, 0.2, 0.3]))).unwrap();

    assert_eq!(store.count(), 2);
    store.clear();
    assert_eq!(store.count(), 0);
}

#[test]
fn test_capacity_exceeded() {
    let mut store = InMemorySemanticStore::new(3, 2);
    store.store(Concept::new("a", bits(&[0.1, 0.2, 0.3]))).unwrap();
    store.store(Concept::new("b", bits(&[0.1, 0.2, 0.3]))).unwrap();

    let result = store.store(Concept::new("c", bits(&[0.1, 0.2, 0.3])));
    assert!(matches!(result, Err(MemoryError::Storage(_))));
}

#[test]
fn test_get_and_access() {
    let mut store = InMemorySemanticStore::new(3, 100);
    let concept = Concept::new("test", bits(&[0.1, 0.2, 0.3]));
    let id = store.store(concept).unwrap();

    let retrieved = store.get_and_access(&id).unwrap();
    assert_eq!(retrieved.access_count, 1);

    let retrieved2 = store.get_and_access(&id).unwrap();
    assert_eq!(retrieved2.access_count, 2);
}

#[test]
fn clamp_matches_f32_clamp() {
    let samples = [
        0.0f32,
        -0.0,
        0.5,
        1.0,
        1.5,
        -0.25,
        f32::INFINITY,
        f32::NEG_INFINITY,
        f32::MIN_POSITIVE,
        f32::MAX,
        f32::MIN,
        0.999_999,
        1.000_001,
    ];
    for x in samples {
        assert_eq!(clamp_unit_bits(x.to_bits()), x.clamp(0.0, 1.0).to_bits(), "{}", x);
    }
    assert!(f32::from_bits(clamp_unit_bits(f32::NAN.to_bits())).is_nan());
    let relation = ConceptRelation::new(ConceptId::new("t"), RelationType::Causes, 3.0f32.to_bits());
    assert_eq!(f32::from_bits(relation.strength_bits), 1.0);
    let concept = Concept::new("c", vec![]).with_confidence((-2.0f32).to_bits());
    assert_eq!(f32::from_bits(concept.confidence_bits), 0.0);
}

#[test]
fn store_refreshes_update_time_and_indexes_lowercase_names() {
    let mut store = InMemorySemanticStore::new(2, 10);
    let mut concept = Concept::with_id(ConceptId::new("c-1"), "MiXeD", bits(&[1.0, 0.0]));
    concept.updated_nanos = 0;
    let id = store.store(concept).unwrap();
    assert_eq!(id, ConceptId::new("c-1"));
    assert!(store.get(&id).unwrap().updated_nanos > 0);
    assert!(store.find_by_name("mixed").unwrap().is_some());
    assert!(store.find_by_name("MIXED").unwrap().is_some());
    assert!(store.find_by_name("other").unwrap().is_none());
    assert_eq!(store.search_by_name("XE").unwrap().len(), 1);
}

#[test]
fn renamed_and_deleted_concept_leaves_a_dangling_name() {
    let mut store = InMemorySemanticStore::new(2, 10);
    let id = store.store(Concept::with_id(ConceptId::new("c-1"), "old", vec![])).unwrap();
    let mut renamed = store.get(&id).unwrap();
    renamed.name = "new".to_string();
    store.update(renamed).unwrap();
    store.delete(&id).unwrap();
    assert!(store.find_by_name("new").unwrap().is_none());
    assert!(matches!(store.find_by_name("old"), Err(MemoryError::ConceptNotFound(_))));
}

#[test]
fn update_and_delete_errors() {
    let mut store = InMemorySemanticStore::new(2, 10);
    let missing = Concept::with_id(ConceptId::new("nope"), "x", vec![]);
    assert!(matches!(store.update(missing), Err(MemoryError::ConceptNotFound(_))));
    assert!(matches!(store.delete(&ConceptId::new("nope")), Err(MemoryError::ConceptNotFound(_))));
    assert!(matches!(store.get_and_access(&ConceptId::new("nope")), Err(MemoryError::ConceptNotFound(_))));
    let id = store.store(Concept::with_id(ConceptId::new("c"), "c", vec![])).unwrap();
    let mut wrong = store.get(&id).unwrap();
    wrong.embedding_bits = bits(&[1.0, 2.0, 3.0]);
    match store.update(wrong) {
        Err(MemoryError::DimensionMismatch { expected, got }) => {
            assert_eq!(expected, 2);
            assert_eq!(got, 3);
        },
        other => panic!("unexpected: {:?}", other),
    }
}

#[test]
fn nearest_candidates_are_the_concepts_with_embeddings() {
    let mut store = InMemorySemanticStore::new(2, 10);
    store.store(Concept::with_id(ConceptId::new("a"), "a", bits(&[1.0, 0.0]))).unwrap();
    store.store(Concept::with_id(ConceptId::new("b"), "b", vec![])).unwrap();
    let candidates = store.nearest_candidates(2).unwrap();
    assert_eq!(candidates.len(), 1);
    assert_eq!(candidates[0].id, ConceptId::new("a"));
}

#[test]
fn related_to_any_type_skips_missing_targets() {
    let mut store = InMemorySemanticStore::new(2, 10);
    store.store(Concept::with_id(ConceptId::new("p"), "p", vec![])).unwrap();
    let child = Concept::with_id(ConceptId::new("c"), "c", vec![])
        .with_relation(ConceptId::new("p"), RelationType::PartOf, 0)
        .with_relation(ConceptId::new("gone"), RelationType::IsA, 0)
        .with_relation(ConceptId::new("p"), RelationType::Custom("x".to_string()), 0);
    store.store(child).unwrap();
    let all = store.related_to(&ConceptId::new("c"), None).unwrap();
    assert_eq!(all.len(), 2);
    let custom = store
        .related_to(&ConceptId::new("c"), Some(&RelationType::Custom("x".to_string())))
        .unwrap();
    assert_eq!(custom.len(), 1);
    assert!(matches!(
        store.related_to(&ConceptId::new("zzz"), None),
        Err(MemoryError::ConceptNotFound(_))
    ));
}
