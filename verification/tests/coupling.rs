use torus_agent::memory::coupling::{
    AssociateOutcome, Association, AssociationType, InMemoryCoupling,
};
use torus_agent::memory::{ConceptId, EventId, MemoryError};

fn sample_event_id(n: u32) -> EventId {
    EventId::new(&format!("evt-{}", n))
}

fn sample_concept_id(n: u32) -> ConceptId {
    ConceptId::new(&format!("cpt-{}", n))
}

fn strength(a: &Association) -> f32 {
    f32::from_bits(a.strength_bits)
}

#[test]
fn test_association_new() {
    let assoc = Association::new(
        sample_event_id(1),
        sample_concept_id(1),
        0.8f32.to_bits(),
        AssociationType::DirectMention,
    );
    assert!((strength(&assoc) - 0.8).abs() < 0.001);
    assert_eq!(assoc.activation_count, 0);
}

#[test]
fn test_association_activate() {
    let mut assoc = Association::direct(sample_event_id(1), sample_concept_id(1), 0.8f32.to_bits());
    assoc.activate();
    assert_eq!(assoc.activation_count, 1);
    assoc.activate();
    assert_eq!(assoc.activation_count, 2);
}

#[test]
fn test_association_strengthen() {
    let mut assoc = Association::direct(sample_event_id(1), sample_concept_id(1), 0.5f32.to_bits());
    assoc.set_strength((strength(&assoc) + 0.3).to_bits());
    assoc.activate();
    assert!((strength(&assoc) - 0.8).abs() < 0.001);
}

#[test]
fn test_association_strengthen_clamp() {
    let mut assoc = Association::direct(sample_event_id(1), sample_concept_id(1), 0.9f32.to_bits());
    assoc.set_strength((strength(&assoc) + 0.5).to_bits());
    assoc.activate();
    assert!((strength(&assoc) - 1.0).abs() < 0.001);
}

#[test]
fn test_association_weaken() {
    let mut assoc = Association::direct(sample_event_id(1), sample_concept_id(1), 0.8f32.to_bits());
    assoc.set_strength((strength(&assoc) - 0.3).to_bits());
    assert!((strength(&assoc) - 0.5).abs() < 0.001);
}

#[test]
fn test_inmemory_associate() {
    let mut coupling = InMemoryCoupling::new();
    coupling.associate(sample_event_id(1), sample_concept_id(1)).unwrap();
    assert_eq!(coupling.count(), 1);
}

#[test]
fn test_inmemory_concepts_for_episode() {
    let mut coupling = InMemoryCoupling::new();
    let ep = sample_event_id(1);
    coupling.associate(ep.clone(), sample_concept_id(1)).unwrap();
    coupling.associate(ep.clone(), sample_concept_id(2)).unwrap();

    let concepts = coupling.concepts_for_episode(&ep).unwrap();
    assert_eq!(concepts.len(), 2);
}

#[test]
fn test_inmemory_get_association() {
    let mut coupling = InMemoryCoupling::new();
    let ep = sample_event_id(1);
    let cp = sample_concept_id(1);
    coupling
        .associate_with_strength(ep.clone(), cp.clone(), 0.75f32.to_bits(), AssociationType::Inferred)
        .unwrap();

    let assoc = coupling.get_association(&ep, &cp).unwrap();
    assert!(assoc.is_some());
    assert!((strength(&assoc.unwrap()) - 0.75).abs() < 0.001);
}

#[test]
fn test_inmemory_strengthen() {
    let mut coupling = InMemoryCoupling::new();
    let ep = sample_event_id(1);
    let cp = sample_concept_id(1);
    coupling
        .associate_with_strength(ep.clone(), cp.clone(), 0.5f32.to_bits(), AssociationType::DirectMention)
        .unwrap();

    let current = coupling.get_association(&ep, &cp).unwrap().unwrap();
    coupling.strengthen_to(&ep, &cp, (strength(&current) + 0.3).to_bits()).unwrap();

    let assoc = coupling.get_association(&ep, &cp).unwrap().unwrap();
    assert!((strength(&assoc) - 0.8).abs() < 0.001);
    assert_eq!(assoc.activation_count, 1);
}

#[test]
fn test_inmemory_disassociate() {
    let mut coupling = InMemoryCoupling::new();
    let ep = sample_event_id(1);
    let cp = sample_concept_id(1);
    coupling.associate(ep.clone(), cp.clone()).unwrap();

    assert_eq!(coupling.count(), 1);
    coupling.disassociate(&ep, &cp).unwrap();
    assert_eq!(coupling.count(), 0);
    coupling.disassociate(&ep, &cp).unwrap();
    assert_eq!(coupling.count(), 0);
}

#[test]
fn test_inmemory_remove_episode_associations() {
    let mut coupling = InMemoryCoupling::new();
    let ep = sample_event_id(1);
    coupling.associate(ep.clone(), sample_concept_id(1)).unwrap();
    coupling.associate(ep.clone(), sample_concept_id(2)).unwrap();
    coupling.associate(sample_event_id(2), sample_concept_id(1)).unwrap();

    let removed = coupling.remove_episode_associations(&ep).unwrap();
    assert_eq!(removed, 2);
    assert_eq!(coupling.count(), 1);
}

#[test]
fn test_inmemory_remove_concept_associations() {
    let mut coupling = InMemoryCoupling::new();
    let cp = sample_concept_id(1);
    coupling.associate(sample_event_id(1), cp.clone()).unwrap();
    coupling.associate(sample_event_id(2), cp.clone()).unwrap();
    coupling.associate(sample_event_id(1), sample_concept_id(2)).unwrap();

    let removed = coupling.remove_concept_associations(&cp).unwrap();
    assert_eq!(removed, 2);
    assert_eq!(coupling.count(), 1);
}

#[test]
fn coupling_test_inmemory_clear() {
    let mut coupling = InMemoryCoupling::new();
    coupling.associate(sample_event_id(1), sample_concept_id(1)).unwrap();
    coupling.associate(sample_event_id(2), sample_concept_id(2)).unwrap();

    coupling.clear();
    assert_eq!(coupling.count(), 0);
}

#[test]
fn associating_twice_reports_the_existing_strength() {
    let mut coupling = InMemoryCoupling::default();
    let ep = sample_event_id(1);
    let cp = sample_concept_id(1);
    let first = coupling
        .associate_with_strength(ep.clone(), cp.clone(), 2.0f32.to_bits(), AssociationType::Manual)
        .unwrap();
    assert_eq!(first, AssociateOutcome::Created);
    let second = coupling.associate(ep.clone(), cp.clone()).unwrap();
    assert_eq!(second, AssociateOutcome::Existing { strength_bits: 1.0f32.to_bits() });
    assert_eq!(coupling.count(), 1);
    let assoc = coupling.get_association(&ep, &cp).unwrap().unwrap();
    assert_eq!(assoc.association_type, AssociationType::Manual);
}

#[test]
fn both_sides_see_each_association() {
    let mut coupling = InMemoryCoupling::new();
    coupling.associate(sample_event_id(1), sample_concept_id(1)).unwrap();
    coupling.associate(sample_event_id(2), sample_concept_id(1)).unwrap();
    coupling.associate(sample_event_id(1), sample_concept_id(3)).unwrap();
    let episodes = coupling.episode_ids_for_concept(&sample_concept_id(1)).unwrap();
    assert_eq!(episodes, vec![sample_event_id(1), sample_event_id(2)]);
    let concepts = coupling.concepts_for_episode(&sample_event_id(1)).unwrap();
    assert_eq!(concepts, vec![sample_concept_id(1), sample_concept_id(3)]);
    assert_eq!(coupling.associations_for_episode(&sample_event_id(2)).len(), 1);
    assert_eq!(coupling.associations_for_concept(&sample_concept_id(3)).len(), 1);
    assert!(coupling.concepts_for_episode(&sample_event_id(9)).unwrap().is_empty());
}

#[test]
fn strengthening_a_missing_association_is_a_storage_error() {
    let mut coupling = InMemoryCoupling::new();
    match coupling.strengthen_to(&sample_event_id(1), &sample_concept_id(1), 0) {
        Err(MemoryError::Storage(m)) => {
            assert_eq!(m, "Association not found: EventId(\"evt-1\") -> ConceptId(\"cpt-1\")")
        },
        other => panic!("unexpected: {:?}", other),
    }
}
