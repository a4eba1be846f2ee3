//! Semantic memory: concepts with embeddings, relations between them, and
//! an in-memory store that checks embedding dimensions and capacity and
//! finds concepts by id, by name (case-insensitively) and by relation.
//!
//! Embedding components, confidences and relation strengths are `f32`
//! values; they are carried as the bits of the `f32` (`f32::to_bits`).
//! Times are nanoseconds since the Unix epoch.

use vstd::prelude::*;
use crate::keyed::{str_equal, KeyedMap};
use crate::providers::types::{clone_string_map, string_map_view};
use crate::text::{has_substring, lowercase_of, str_contains, to_lower};
use super::episodic::{nanos_value, now_nanos};
use super::ids::{ConceptId, MemoryError};

verus! {

broadcast use vstd::seq_lib::group_seq_properties;

/// Types of relations between concepts.
#[derive(Debug, Clone, PartialEq, Eq, Hash)]
pub enum RelationType {
    /// Parent/child hierarchy (is-a)
    IsA,
    /// Part-of relation
    PartOf,
    /// Has-property relation
    HasProperty,
    /// Causes or leads to
    Causes,
    /// Similar/related to
    SimilarTo,
    /// Opposite of
    OppositeOf,
    /// Instance of (class-instance relation)
    InstanceOf,
    /// Used for/purpose
    UsedFor,
    /// Custom relation
    Custom(String),
}

/// Whether two relation types are the same (custom ones by their name).
pub open spec fn same_relation(a: RelationType, b: RelationType) -> bool {
    match (a, b) {
        (RelationType::Custom(x), RelationType::Custom(y)) => x@ == y@,
        (RelationType::Custom(_), _) => false,
        (_, RelationType::Custom(_)) => false,
        _ => a == b,
    }
}

impl RelationType {
    /// Whether two relation types are the same.
    pub fn same_as(&self, other: &RelationType) -> (b: bool)
        ensures
            b == same_relation(*self, *other),
    {
        match (self, other) {
            (RelationType::IsA, RelationType::IsA) => true,
            (RelationType::PartOf, RelationType::PartOf) => true,
            (RelationType::HasProperty, RelationType::HasProperty) => true,
            (RelationType::Causes, RelationType::Causes) => true,
            (RelationType::SimilarTo, RelationType::SimilarTo) => true,
            (RelationType::OppositeOf, RelationType::OppositeOf) => true,
            (RelationType::InstanceOf, RelationType::InstanceOf) => true,
            (RelationType::UsedFor, RelationType::UsedFor) => true,
            (RelationType::Custom(x), RelationType::Custom(y)) => str_equal(x.as_str(), y.as_str()),
            _ => false,
        }
    }

    /// A copy of this relation type.
    pub fn duplicate(&self) -> (r: RelationType)
        ensures
            r == *self,
    {
        match self {
            RelationType::IsA => RelationType::IsA,
            RelationType::PartOf => RelationType::PartOf,
            RelationType::HasProperty => RelationType::HasProperty,
            RelationType::Causes => RelationType::Causes,
            RelationType::SimilarTo => RelationType::SimilarTo,
            RelationType::OppositeOf => RelationType::OppositeOf,
            RelationType::InstanceOf => RelationType::InstanceOf,
            RelationType::UsedFor => RelationType::UsedFor,
            RelationType::Custom(x) => RelationType::Custom(x.clone()),
        }
    }
}

/// The bits of the `f32` value 1.0.
pub const UNIT_BITS: u32 = 0x3F80_0000;

/// The bits of `f32::from_bits(b).clamp(0.0, 1.0)`: a NaN stays as it is,
/// and so does -0.0 (it is not less than 0.0); other negative values
/// (negative infinity included) become 0.0; values above 1.0 (positive
/// infinity included) become 1.0; the rest stay. Below the sign bit, the
/// bits of non-negative `f32` values order as the values do, and a NaN is
/// exactly a pattern whose lower 31 bits exceed those of infinity.
pub open spec fn clamp_unit(b: u32) -> u32 {
    let magnitude = b % 0x8000_0000;
    if magnitude > 0x7F80_0000 {
        b
    } else if b >= 0x8000_0000 {
        if magnitude == 0 {
            b
        } else {
            0
        }
    } else if b > UNIT_BITS {
        UNIT_BITS
    } else {
        b
    }
}

/// Clamps an `f32`, given by its bits, to [0.0, 1.0].
pub fn clamp_unit_bits(b: u32) -> (r: u32)
    ensures
        r == clamp_unit(b),
{
    let magnitude = b % 0x8000_0000;
    if magnitude > 0x7F80_0000 {
        b
    } else if b >= 0x8000_0000 {
        if magnitude == 0 {
            b
        } else {
            0
        }
    } else if b > UNIT_BITS {
        UNIT_BITS
    } else {
        b
    }
}

/// A relation between concepts.
#[derive(Debug, Clone)]
pub struct ConceptRelation {
    /// Target concept ID
    pub target: ConceptId,
    /// Relation type
    pub relation_type: RelationType,
    /// Strength of the relation (0.0 - 1.0), as the bits of its `f32` value
    pub strength_bits: u32,
}

impl ConceptRelation {
    /// A relation, its strength clamped to [0.0, 1.0].
    pub fn new(target: ConceptId, relation_type: RelationType, strength_bits: u32) -> (r: Self)
        ensures
            r == (ConceptRelation { target, relation_type, strength_bits: clamp_unit(strength_bits) }),
    {
        ConceptRelation { target, relation_type, strength_bits: clamp_unit_bits(strength_bits) }
    }

    /// A copy of this relation.
    pub fn duplicate(&self) -> (r: Self)
        ensures
            r == *self,
    {
        ConceptRelation {
            target: ConceptId(self.target.0.clone()),
            relation_type: self.relation_type.duplicate(),
            strength_bits: self.strength_bits,
        }
    }
}

/// The abstract content of a concept.
pub struct ConceptModel {
    pub id: Seq<char>,
    pub name: Seq<char>,
    pub description: Seq<char>,
    pub embedding_bits: Seq<u32>,
    pub created_nanos: i64,
    pub updated_nanos: i64,
    pub confidence_bits: u32,
    pub access_count: u32,
    pub relations: Seq<ConceptRelation>,
    pub metadata: Map<Seq<char>, Seq<char>>,
}

/// A concept: a semantic unit in memory.
#[derive(Debug)]
pub struct Concept {
    /// Unique identifier
    pub id: ConceptId,
    /// Human-readable name/label
    pub name: String,
    /// Description or definition
    pub description: String,
    /// Vector embedding, as the bits of its `f32` components (empty if not computed)
    pub embedding_bits: Vec<u32>,
    /// When this concept was created (nanoseconds since the Unix epoch)
    pub created_nanos: i64,
    /// When this concept was last updated (nanoseconds since the Unix epoch)
    pub updated_nanos: i64,
    /// Confidence/certainty score (0.0 - 1.0), as the bits of its `f32` value
    pub confidence_bits: u32,
    /// Access count for frequency-based retrieval
    pub access_count: u32,
    /// Relations to other concepts
    pub relations: Vec<ConceptRelation>,
    /// Additional metadata
    pub metadata: KeyedMap<String>,
}

impl View for Concept {
    type V = ConceptModel;

    open spec fn view(&self) -> ConceptModel {
        ConceptModel {
            id: self.id.0@,
            name: self.name@,
            description: self.description@,
            embedding_bits: self.embedding_bits@,
            created_nanos: self.created_nanos,
            updated_nanos: self.updated_nanos,
            confidence_bits: self.confidence_bits,
            access_count: self.access_count,
            relations: self.relations@,
            metadata: string_map_view(self.metadata.view()),
        }
    }
}

/// The relations of a concept that have a given type.
pub open spec fn of_type(t: RelationType) -> spec_fn(ConceptRelation) -> bool {
    |r: ConceptRelation| same_relation(r.relation_type, t)
}

/// The relations of a concept that point elsewhere than `target`.
pub open spec fn not_to(target: Seq<char>) -> spec_fn(ConceptRelation) -> bool {
    |r: ConceptRelation| r.target.0@ != target
}

/// The relations that references point to.
pub open spec fn pointed_relations(v: Seq<&ConceptRelation>) -> Seq<ConceptRelation> {
    v.map_values(|r: &ConceptRelation| *r)
}

impl Concept {
    /// Metadata keys are unique.
    pub open spec fn wf(&self) -> bool {
        self.metadata.wf()
    }

    /// Create a concept with a fresh id, created and updated now,
    /// confidence 1.0, never accessed, with no relations or metadata.
    pub fn new(name: &str, embedding_bits: Vec<u32>) -> (c: Self)
        ensures
            c.wf(),
            c@.name == name@,
            c@.description == Seq::<char>::empty(),
            c@.embedding_bits == embedding_bits@,
            c@.updated_nanos == c@.created_nanos,
            exists|n: Option<i64>| c@.created_nanos == nanos_value(n),
            c@.confidence_bits == UNIT_BITS,
            c@.access_count == 0,
            c@.relations.len() == 0,
            c@.metadata == Map::<Seq<char>, Seq<char>>::empty(),
    {
        let now = now_nanos();
        let c = Concept {
            id: ConceptId::generate(),
            name: name.to_owned(),
            description: String::new(),
            embedding_bits,
            created_nanos: now,
            updated_nanos: now,
            confidence_bits: UNIT_BITS,
            access_count: 0,
            relations: Vec::new(),
            metadata: KeyedMap::new(),
        };
        assert(c@.metadata =~= Map::empty());
        c
    }

    /// Create a concept with a given id.
    pub fn with_id(id: ConceptId, name: &str, embedding_bits: Vec<u32>) -> (c: Self)
        ensures
            c.wf(),
            c@.id == id.0@,
            c@.name == name@,
            c@.description == Seq::<char>::empty(),
            c@.embedding_bits == embedding_bits@,
            c@.updated_nanos == c@.created_nanos,
            exists|n: Option<i64>| c@.created_nanos == nanos_value(n),
            c@.confidence_bits == UNIT_BITS,
            c@.access_count == 0,
            c@.relations.len() == 0,
            c@.metadata == Map::<Seq<char>, Seq<char>>::empty(),
    {
        let mut concept = Concept::new(name, embedding_bits);
        concept.id = id;
        concept
    }

    /// Set the description.
    pub fn with_description(self, description: &str) -> (c: Self)
        ensures
            c.wf() == self.wf(),
            c@ == (ConceptModel { description: description@, ..self@ }),
    {
        let mut c = self;
        c.description = description.to_owned();
        c
    }

    /// Set the confidence, clamped to [0.0, 1.0].
    pub fn with_confidence(self, confidence_bits: u32) -> (c: Self)
        ensures
            c.wf() == self.wf(),
            c@ == (ConceptModel { confidence_bits: clamp_unit(confidence_bits), ..self@ }),
    {
        let mut c = self;
        c.confidence_bits = clamp_unit_bits(confidence_bits);
        c
    }

    /// Add a relation, its strength clamped to [0.0, 1.0].
    pub fn with_relation(self, target: ConceptId, relation_type: RelationType, strength_bits: u32) -> (c: Self)
        ensures
            c.wf() == self.wf(),
            c@ == (ConceptModel {
                relations: self@.relations.push(
                    ConceptRelation { target, relation_type, strength_bits: clamp_unit(strength_bits) },
                ),
                ..self@
            }),
    {
        let mut c = self;
        c.relations.push(ConceptRelation::new(target, relation_type, strength_bits));
        c
    }

    /// Add metadata.
    pub fn with_metadata(self, key: &str, value: &str) -> (c: Self)
        requires
            self.wf(),
        ensures
            c.wf(),
            c@ == (ConceptModel { metadata: self@.metadata.insert(key@, value@), ..self@ }),
    {
        let mut c = self;
        c.metadata.insert(key.to_owned(), value.to_owned());
        assert(c@.metadata =~= self@.metadata.insert(key@, value@));
        c
    }

    /// Mark as accessed: one more access.
    pub fn mark_accessed(&mut self)
        requires
            old(self).access_count < u32::MAX,
        ensures
            final(self).wf() == old(self).wf(),
            final(self)@ == (ConceptModel { access_count: (old(self)@.access_count + 1) as u32, ..old(self)@ }),
    {
        self.access_count = self.access_count + 1;
    }

    /// Mark as updated now.
    pub fn update(&mut self)
        ensures
            final(self).wf() == old(self).wf(),
            exists|n: Option<i64>|
                final(self)@ == (ConceptModel { updated_nanos: #[trigger] nanos_value(n), ..old(self)@ }),
    {
        self.updated_nanos = now_nanos();
    }

    /// Whether this concept has an embedding.
    pub fn has_embedding(&self) -> (b: bool)
        ensures
            b == (self@.embedding_bits.len() > 0),
    {
        self.embedding_bits.len() != 0
    }

    /// The embedding dimension.
    pub fn embedding_dim(&self) -> (n: usize)
        ensures
            n == self@.embedding_bits.len(),
    {
        self.embedding_bits.len()
    }

    /// Add a relation, its strength clamped to [0.0, 1.0], and mark the
    /// concept updated now.
    pub fn add_relation(&mut self, target: ConceptId, relation_type: RelationType, strength_bits: u32)
        ensures
            final(self).wf() == old(self).wf(),
            exists|n: Option<i64>|
                final(self)@ == (ConceptModel {
                    relations: old(self)@.relations.push(
                        ConceptRelation { target, relation_type, strength_bits: clamp_unit(strength_bits) },
                    ),
                    updated_nanos: #[trigger] nanos_value(n),
                    ..old(self)@
                }),
    {
        self.relations.push(ConceptRelation::new(target, relation_type, strength_bits));
        self.update();
    }

    /// Remove every relation to `target`, and mark the concept updated now.
    pub fn remove_relation(&mut self, target: &ConceptId)
        ensures
            final(self).wf() == old(self).wf(),
            exists|n: Option<i64>|
                final(self)@ == (ConceptModel {
                    relations: old(self)@.relations.filter(not_to(target.0@)),
                    updated_nanos: #[trigger] nanos_value(n),
                    ..old(self)@
                }),
    {
        let mut old_relations: Vec<ConceptRelation> = Vec::new();
        std::mem::swap(&mut old_relations, &mut self.relations);
        let ghost pred = not_to(target.0@);
        let mut kept: Vec<ConceptRelation> = Vec::new();
        let mut i: usize = 0;
        while i < old_relations.len()
            invariant
                i <= old_relations@.len(),
                pred == not_to(target.0@),
                kept@ == old_relations@.subrange(0, i as int).filter(pred),
            decreases old_relations@.len() - i,
        {
            proof {
                assert(old_relations@.subrange(0, i + 1).drop_last() =~= old_relations@.subrange(0, i as int));
                reveal(Seq::filter);
            }
            let r = &old_relations[i];
            if !str_equal(r.target.0.as_str(), target.0.as_str()) {
                kept.push(r.duplicate());
            }
            i = i + 1;
        }
        assert(old_relations@.subrange(0, old_relations@.len() as int) =~= old_relations@);
        self.relations = kept;
        self.update();
    }

    /// The relations of a given type, in order.
    pub fn relations_of_type(&self, relation_type: &RelationType) -> (r: Vec<&ConceptRelation>)
        ensures
            pointed_relations(r@) == self@.relations.filter(of_type(*relation_type)),
    {
        let ghost pred = of_type(*relation_type);
        let mut r: Vec<&ConceptRelation> = Vec::new();
        let mut i: usize = 0;
        while i < self.relations.len()
            invariant
                i <= self.relations@.len(),
                pred == of_type(*relation_type),
                pointed_relations(r@) == self.relations@.subrange(0, i as int).filter(pred),
            decreases self.relations@.len() - i,
        {
            proof {
                assert(self.relations@.subrange(0, i + 1).drop_last() =~= self.relations@.subrange(0, i as int));
                reveal(Seq::filter);
            }
            let rel = &self.relations[i];
            if rel.relation_type.same_as(relation_type) {
                r.push(rel);
            }
            i = i + 1;
            assert(pointed_relations(r@) =~= self.relations@.subrange(0, i as int).filter(pred));
        }
        assert(self.relations@.subrange(0, self.relations@.len() as int) =~= self.relations@);
        r
    }

    /// A copy of this concept.
    pub fn duplicate(&self) -> (r: Self)
        requires
            self.wf(),
        ensures
            r.wf(),
            r@ == self@,
    {
        let mut relations: Vec<ConceptRelation> = Vec::new();
        let mut i: usize = 0;
        while i < self.relations.len()
            invariant
                i <= self.relations@.len(),
                relations@ == self.relations@.subrange(0, i as int),
            decreases self.relations@.len() - i,
        {
            relations.push(self.relations[i].duplicate());
            i = i + 1;
        }
        assert(relations@ =~= self.relations@);
        let mut embedding_bits: Vec<u32> = Vec::new();
        let mut j: usize = 0;
        while j < self.embedding_bits.len()
            invariant
                j <= self.embedding_bits@.len(),
                embedding_bits@ == self.embedding_bits@.subrange(0, j as int),
            decreases self.embedding_bits@.len() - j,
        {
            embedding_bits.push(self.embedding_bits[j]);
            j = j + 1;
        }
        assert(embedding_bits@ =~= self.embedding_bits@);
        Concept {
            id: ConceptId(self.id.0.clone()),
            name: self.name.clone(),
            description: self.description.clone(),
            embedding_bits,
            created_nanos: self.created_nanos,
            updated_nanos: self.updated_nanos,
            confidence_bits: self.confidence_bits,
            access_count: self.access_count,
            relations,
            metadata: clone_string_map(&self.metadata),
        }
    }
}

// =============================================================================
// IN-MEMORY STORE
// =============================================================================

/// Whether an embedding fits a store of dimension `dim` (an empty one always does).
pub open spec fn fits_dimension(embedding: Seq<u32>, dim: usize) -> bool {
    embedding.len() == 0 || embedding.len() == dim
}

/// Whether a concept's lowercase name contains a lowercase pattern.
pub open spec fn name_matches(m: ConceptModel, pattern: Seq<char>) -> bool {
    has_substring(lowercase_of(m.name), lowercase_of(pattern))
}

/// `r` holds each stored concept that satisfies `p` exactly once, as stored.
pub open spec fn concept_selection(
    r: Seq<Concept>,
    m: Map<Seq<char>, Concept>,
    p: spec_fn(ConceptModel) -> bool,
) -> bool {
    &&& forall|i: int|
        0 <= i < r.len() ==> {
            &&& (#[trigger] r[i]).wf()
            &&& m.dom().contains(r[i]@.id)
            &&& r[i]@ == m[r[i]@.id]@
            &&& p(r[i]@)
        }
    &&& forall|i: int, j: int|
        0 <= i < r.len() && 0 <= j < r.len() && i != j ==> #[trigger] r[i]@.id != #[trigger] r[j]@.id
    &&& forall|k: Seq<char>|
        m.dom().contains(k) && p(m[k]@) ==> exists|i: int| 0 <= i < r.len() && #[trigger] r[i]@.id == k
}

/// Whether a relation passes an optional type filter.
pub open spec fn relation_passes(r: ConceptRelation, t: Option<RelationType>) -> bool {
    match t {
        None => true,
        Some(x) => same_relation(r.relation_type, x),
    }
}

/// The stored concepts that relations of the given type point to, in the
/// order of the relations (targets that are not stored are skipped).
pub open spec fn related_models(
    rels: Seq<ConceptRelation>,
    m: Map<Seq<char>, Concept>,
    t: Option<RelationType>,
) -> Seq<ConceptModel>
    decreases rels.len(),
{
    if rels.len() == 0 {
        Seq::empty()
    } else {
        let rest = related_models(rels.drop_last(), m, t);
        let r = rels.last();
        if relation_passes(r, t) && m.dom().contains(r.target.0@) {
            rest.push(m[r.target.0@]@)
        } else {
            rest
        }
    }
}

/// The models of a sequence of concepts.
pub open spec fn concept_models(v: Seq<Concept>) -> Seq<ConceptModel> {
    v.map_values(|c: Concept| c@)
}

/// The filters that the store's selections apply.
enum ConceptFilter {
    All,
    NameContains(String),
    WithEmbedding,
}

spec fn filter_passes(f: ConceptFilter, m: ConceptModel) -> bool {
    match f {
        ConceptFilter::All => true,
        ConceptFilter::NameContains(p) => has_substring(lowercase_of(m.name), p@),
        ConceptFilter::WithEmbedding => m.embedding_bits.len() > 0,
    }
}

fn filter_passes_exec(f: &ConceptFilter, c: &Concept) -> (b: bool)
    ensures
        b == filter_passes(*f, c@),
{
    match f {
        ConceptFilter::All => true,
        ConceptFilter::NameContains(p) => {
            let name = to_lower(c.name.as_str());
            str_contains(name.as_str(), p.as_str())
        },
        ConceptFilter::WithEmbedding => c.has_embedding(),
    }
}

/// In-memory semantic store.
#[derive(Debug)]
pub struct InMemorySemanticStore {
    /// Concepts indexed by ID
    concepts: KeyedMap<Concept>,
    /// Lowercase name to ID index
    name_index: KeyedMap<ConceptId>,
    /// Expected embedding dimension
    embedding_dim: usize,
    /// Maximum number of concepts
    max_size: usize,
}

impl InMemorySemanticStore {
    /// The stored concepts, by id.
    pub closed spec fn contents(&self) -> Map<Seq<char>, Concept> {
        self.concepts.view()
    }

    /// The name index: lowercase names to concept ids.
    pub closed spec fn names(&self) -> Map<Seq<char>, Seq<char>> {
        self.name_index.view().map_values(|id: ConceptId| id.0@)
    }

    /// The expected embedding dimension.
    pub closed spec fn dimension(&self) -> usize {
        self.embedding_dim
    }

    /// The capacity.
    pub closed spec fn capacity(&self) -> usize {
        self.max_size
    }

    /// Both maps have unique keys; every concept is stored under its own
    /// id, is well formed and has an embedding that fits; and the store
    /// holds no more than its capacity.
    pub closed spec fn wf(&self) -> bool {
        &&& self.concepts.wf()
        &&& self.name_index.wf()
        &&& self.concepts.view().dom().len() <= self.max_size
        &&& forall|k: Seq<char>|
            #[trigger] self.concepts.view().dom().contains(k) ==> self.concepts.view()[k]@.id == k
                && self.concepts.view()[k].wf() && fits_dimension(
                self.concepts.view()[k]@.embedding_bits,
                self.embedding_dim,
            )
    }

    /// Every stored concept's embedding is empty or has the store's
    /// dimension: storing and updating refuse any other.
    pub proof fn law_embeddings_fit_dimension(&self)
        requires
            self.wf(),
        ensures
            forall|k: Seq<char>|
                #[trigger] self.contents().dom().contains(k) ==> fits_dimension(
                    self.contents()[k]@.embedding_bits,
                    self.dimension(),
                ),
    {
    }

    /// The store never holds more concepts than its capacity: storing a
    /// new id into a full store is refused.
    pub proof fn law_within_capacity(&self)
        requires
            self.wf(),
        ensures
            self.contents().dom().finite(),
            self.contents().dom().len() <= self.capacity(),
    {
        self.concepts.lemma_len();
    }

    /// An empty store for embeddings of the given dimension, holding at
    /// most `max_size` concepts.
    pub fn new(embedding_dim: usize, max_size: usize) -> (s: Self)
        ensures
            s.wf(),
            s.contents() == Map::<Seq<char>, Concept>::empty(),
            s.names() == Map::<Seq<char>, Seq<char>>::empty(),
            s.dimension() == embedding_dim,
            s.capacity() == max_size,
    {
        let s = InMemorySemanticStore {
            concepts: KeyedMap::new(),
            name_index: KeyedMap::new(),
            embedding_dim,
            max_size,
        };
        assert(s.names() =~= Map::<Seq<char>, Seq<char>>::empty());
        s
    }

    /// Store a concept (a new one, or a replacement of one with its id),
    /// marked updated now, and index its lowercase name. Refused when its
    /// embedding does not fit the store's dimension, or when the store is
    /// full and the id is new.
    pub fn store(&mut self, concept: Concept) -> (r: Result<ConceptId, MemoryError>)
        requires
            old(self).wf(),
            concept.wf(),
        ensures
            final(self).wf(),
            final(self).dimension() == old(self).dimension(),
            final(self).capacity() == old(self).capacity(),
            ({
                let bad_dim = !fits_dimension(concept@.embedding_bits, old(self).dimension());
                let full = old(self).contents().dom().len() >= old(self).capacity()
                    && !old(self).contents().dom().contains(concept@.id);
                &&& bad_dim ==> (r matches Err(MemoryError::DimensionMismatch { expected, got })
                    && expected == old(self).dimension() && got == concept@.embedding_bits.len())
                &&& (!bad_dim && full) ==> (r matches Err(MemoryError::Storage(m))
                    && m@ == "Semantic store capacity exceeded"@)
                &&& (bad_dim || full) ==> final(self).contents() == old(self).contents()
                    && final(self).names() == old(self).names()
                &&& (!bad_dim && !full) ==> {
                    &&& r matches Ok(id) && id.0@ == concept@.id
                    &&& final(self).names() == old(self).names().insert(
                        lowercase_of(concept@.name),
                        concept@.id,
                    )
                    &&& final(self).contents() == old(self).contents().insert(
                        concept@.id,
                        final(self).contents()[concept@.id],
                    )
                    &&& exists|n: Option<i64>|
                        final(self).contents()[concept@.id]@ == (ConceptModel {
                            updated_nanos: #[trigger] nanos_value(n),
                            ..concept@
                        })
                }
            }),
    {
        if concept.embedding_bits.len() != 0 && concept.embedding_bits.len() != self.embedding_dim {
            return Err(
                MemoryError::DimensionMismatch {
                    expected: self.embedding_dim,
                    got: concept.embedding_bits.len(),
                },
            );
        }
        if self.concepts.len() >= self.max_size && !self.concepts.contains_key(concept.id.0.as_str()) {
            return Err(MemoryError::Storage("Semantic store capacity exceeded".to_owned()));
        }
        proof {
            old(self).concepts.lemma_len();
        }
        let id = ConceptId(concept.id.0.clone());
        let name = to_lower(concept.name.as_str());
        let mut concept = concept;
        concept.updated_nanos = now_nanos();
        let ghost stored = concept;
        self.name_index.insert(name, ConceptId(id.0.clone()));
        assert(self.names() =~= old(self).names().insert(lowercase_of(concept@.name), concept@.id));
        self.concepts.insert(id.0.clone(), concept);
        assert(self.contents()[id.0@] == stored);
        assert forall|k: Seq<char>| #[trigger] self.concepts.view().dom().contains(k) implies self.concepts.view()[k]@.id == k
            && self.concepts.view()[k].wf() && fits_dimension(
            self.concepts.view()[k]@.embedding_bits,
            self.embedding_dim,
        ) by {
            if k != id.0@ {
                assert(old(self).concepts.view().dom().contains(k));
            }
        }
        assert(self.concepts.view().dom() =~= old(self).concepts.view().dom().insert(id.0@));
        Ok(id)
    }

    /// The concept with the given id, or `ConceptNotFound`.
    pub fn get(&self, id: &ConceptId) -> (r: Result<Concept, MemoryError>)
        requires
            self.wf(),
        ensures
            r is Ok <==> self.contents().dom().contains(id.0@),
            r matches Ok(c) ==> c.wf() && c@ == self.contents()[id.0@]@,
            r matches Err(err) ==> (err matches MemoryError::ConceptNotFound(x) && x.0@ == id.0@),
    {
        match self.concepts.get(id.0.as_str()) {
            Some(c) => Ok(c.duplicate()),
            None => Err(MemoryError::ConceptNotFound(ConceptId(id.0.clone()))),
        }
    }

    /// The concept with the given id, after counting an access to it.
    pub fn get_and_access(&mut self, id: &ConceptId) -> (r: Result<Concept, MemoryError>)
        requires
            old(self).wf(),
            old(self).contents().dom().contains(id.0@) ==> old(self).contents()[id.0@].access_count
                < u32::MAX,
        ensures
            final(self).wf(),
            final(self).dimension() == old(self).dimension(),
            final(self).capacity() == old(self).capacity(),
            final(self).names() == old(self).names(),
            r is Ok <==> old(self).contents().dom().contains(id.0@),
            r matches Err(err) ==> (err matches MemoryError::ConceptNotFound(x) && x.0@ == id.0@)
                && final(self).contents() == old(self).contents(),
            r matches Ok(c) ==> {
                &&& final(self).contents() == old(self).contents().insert(id.0@, final(self).contents()[id.0@])
                &&& final(self).contents()[id.0@]@ == (ConceptModel {
                    access_count: (old(self).contents()[id.0@]@.access_count + 1) as u32,
                    ..old(self).contents()[id.0@]@
                })
                &&& c.wf()
                &&& c@ == final(self).contents()[id.0@]@
            },
    {
        match self.concepts.remove(id.0.as_str()) {
            Some(mut c) => {
                c.mark_accessed();
                let copy = c.duplicate();
                self.concepts.insert(id.0.clone(), c);
                assert(self.contents() =~= old(self).contents().insert(id.0@, self.contents()[id.0@]));
                assert forall|k: Seq<char>| #[trigger] self.concepts.view().dom().contains(k) implies self.concepts.view()[k]@.id == k
                    && self.concepts.view()[k].wf() && fits_dimension(
                    self.concepts.view()[k]@.embedding_bits,
                    self.embedding_dim,
                ) by {
                    assert(old(self).concepts.view().dom().contains(k));
                }
                assert(self.concepts.view().dom() =~= old(self).concepts.view().dom());
                Ok(copy)
            },
            None => {
                assert(self.contents() =~= old(self).contents());
                Err(MemoryError::ConceptNotFound(ConceptId(id.0.clone())))
            },
        }
    }

    /// The concept indexed under the lowercase form of `name`: none when
    /// the name is not indexed, `ConceptNotFound` when it is indexed to a
    /// concept no longer stored.
    pub fn find_by_name(&self, name: &str) -> (r: Result<Option<Concept>, MemoryError>)
        requires
            self.wf(),
        ensures
            ({
                let key = lowercase_of(name@);
                &&& !self.names().dom().contains(key) ==> (r matches Ok(None))
                &&& self.names().dom().contains(key) && self.contents().dom().contains(self.names()[key])
                    ==> (r matches Ok(Some(c)) && c.wf() && c@ == self.contents()[self.names()[key]]@)
                &&& self.names().dom().contains(key) && !self.contents().dom().contains(self.names()[key])
                    ==> (r matches Err(MemoryError::ConceptNotFound(x)) && x.0@ == self.names()[key])
            }),
    {
        let normalized = to_lower(name);
        match self.name_index.get(normalized.as_str()) {
            Some(id) => {
                match self.get(id) {
                    Ok(c) => Ok(Some(c)),
                    Err(e) => Err(e),
                }
            },
            None => Ok(None),
        }
    }

    /// The stored concepts that pass a filter, each once.
    fn select(&self, f: &ConceptFilter) -> (r: Vec<Concept>)
        requires
            self.wf(),
        ensures
            concept_selection(r@, self.contents(), |x: ConceptModel| filter_passes(*f, x)),
    {
        let n = self.concepts.entry_count();
        let mut r: Vec<Concept> = Vec::new();
        let mut i: usize = 0;
        proof {
            self.concepts.lemma_view_is_entries();
            self.concepts.lemma_wf_is_unique();
        }
        let ghost es = self.concepts.entry_seq();
        while i < n
            invariant
                self.wf(),
                es == self.concepts.entry_seq(),
                n == es.len(),
                i <= n,
                self.contents() == crate::keyed::entries_map(es),
                crate::keyed::keys_unique(es),
                forall|a: int| 0 <= a < r@.len() ==> {
                    &&& (#[trigger] r@[a]).wf()
                    &&& self.contents().dom().contains(r@[a]@.id)
                    &&& r@[a]@ == self.contents()[r@[a]@.id]@
                    &&& filter_passes(*f, r@[a]@)
                    &&& exists|j: int| 0 <= j < i && #[trigger] es[j].0@ == r@[a]@.id
                },
                forall|a: int, b: int|
                    0 <= a < r@.len() && 0 <= b < r@.len() && a != b ==> #[trigger] r@[a]@.id
                        != #[trigger] r@[b]@.id,
                forall|j: int|
                    0 <= j < i && filter_passes(*f, #[trigger] es[j].1@) ==> exists|a: int|
                        0 <= a < r@.len() && r@[a]@.id == es[j].0@,
            decreases n - i,
        {
            let (_k, c) = self.concepts.entry_at(i);
            proof {
                crate::keyed::lemma_entries_map_value(es, i as int);
            }
            assert(self.contents()[es[i as int].0@] == es[i as int].1);
            assert(self.contents().dom().contains(es[i as int].0@));
            assert(c@.id == es[i as int].0@);
            if filter_passes_exec(f, c) {
                let copy = c.duplicate();
                let ghost before = r@;
                r.push(copy);
                proof {
                    assert forall|a: int| 0 <= a < r@.len() implies {
                        &&& (#[trigger] r@[a]).wf()
                        &&& self.contents().dom().contains(r@[a]@.id)
                        &&& r@[a]@ == self.contents()[r@[a]@.id]@
                        &&& filter_passes(*f, r@[a]@)
                        &&& exists|j: int| 0 <= j < i + 1 && #[trigger] es[j].0@ == r@[a]@.id
                    } by {
                        if a < before.len() {
                            assert(r@[a] == before[a]);
                        } else {
                            assert(es[i as int].0@ == r@[a]@.id);
                        }
                    }
                    assert forall|a: int, b: int|
                        0 <= a < r@.len() && 0 <= b < r@.len() && a != b implies #[trigger] r@[a]@.id
                            != #[trigger] r@[b]@.id by {
                        if a < before.len() && b < before.len() {
                            assert(r@[a] == before[a]);
                            assert(r@[b] == before[b]);
                        } else if a < before.len() {
                            assert(r@[a] == before[a]);
                            let j = choose|j: int| 0 <= j < i && #[trigger] es[j].0@ == before[a]@.id;
                            assert(es[j].0@ != es[i as int].0@);
                        } else {
                            assert(r@[b] == before[b]);
                            let j = choose|j: int| 0 <= j < i && #[trigger] es[j].0@ == before[b]@.id;
                            assert(es[j].0@ != es[i as int].0@);
                        }
                    }
                    assert forall|j: int|
                        0 <= j < i + 1 && filter_passes(*f, #[trigger] es[j].1@) implies exists|a: int|
                            0 <= a < r@.len() && r@[a]@.id == es[j].0@ by {
                        if j < i {
                            let a0 = choose|a: int| 0 <= a < before.len() && before[a]@.id == es[j].0@;
                            assert(r@[a0] == before[a0]);
                        } else {
                            assert(r@[before.len() as int]@.id == es[j].0@);
                        }
                    }
                }
            }
            i = i + 1;
        }
        proof {
            assert forall|k: Seq<char>|
                self.contents().dom().contains(k) && filter_passes(*f, self.contents()[k]@) implies exists|a: int|
                    0 <= a < r@.len() && #[trigger] r@[a]@.id == k by {
                crate::keyed::lemma_entries_map_dom(es, k);
                let j = choose|j: int| 0 <= j < es.len() && #[trigger] es[j].0@ == k;
                crate::keyed::lemma_entries_map_value(es, j);
                assert(filter_passes(*f, es[j].1@));
            }
        }
        r
    }

    /// The concepts whose lowercase name contains the lowercase pattern.
    pub fn search_by_name(&self, pattern: &str) -> (r: Result<Vec<Concept>, MemoryError>)
        requires
            self.wf(),
        ensures
            r matches Ok(v) && concept_selection(
                v@,
                self.contents(),
                |x: ConceptModel| name_matches(x, pattern@),
            ),
    {
        let f = ConceptFilter::NameContains(to_lower(pattern));
        let v = self.select(&f);
        assert((|x: ConceptModel| filter_passes(f, x)) =~= (|x: ConceptModel| name_matches(x, pattern@)));
        Ok(v)
    }

    /// The concepts that have an embedding, as candidates for a nearest
    /// neighbour search with a query of `query_len` components; refused
    /// when the query does not have the store's dimension.
    pub fn nearest_candidates(&self, query_len: usize) -> (r: Result<Vec<Concept>, MemoryError>)
        requires
            self.wf(),
        ensures
            query_len != self.dimension() ==> (r matches Err(MemoryError::DimensionMismatch {
                expected,
                got,
            }) && expected == self.dimension() && got == query_len),
            query_len == self.dimension() ==> (r matches Ok(v) && concept_selection(
                v@,
                self.contents(),
                |x: ConceptModel| x.embedding_bits.len() > 0,
            )),
    {
        if query_len != self.embedding_dim {
            return Err(MemoryError::DimensionMismatch { expected: self.embedding_dim, got: query_len });
        }
        let f = ConceptFilter::WithEmbedding;
        let v = self.select(&f);
        assert((|x: ConceptModel| filter_passes(f, x)) =~= (|x: ConceptModel| x.embedding_bits.len() > 0));
        Ok(v)
    }

    /// The stored concepts that the concept's relations (of the given type,
    /// or of any type) point to, in the order of the relations.
    pub fn related_to(&self, id: &ConceptId, relation_type: Option<&RelationType>) -> (r: Result<Vec<Concept>, MemoryError>)
        requires
            self.wf(),
        ensures
            r is Ok <==> self.contents().dom().contains(id.0@),
            r matches Err(err) ==> (err matches MemoryError::ConceptNotFound(x) && x.0@ == id.0@),
            r matches Ok(v) ==> concept_models(v@) == related_models(
                self.contents()[id.0@]@.relations,
                self.contents(),
                match relation_type {
                    Some(t) => Some(*t),
                    None => None,
                },
            ) && forall|i: int| 0 <= i < v@.len() ==> (#[trigger] v@[i]).wf(),
    {
        let concept = match self.concepts.get(id.0.as_str()) {
            Some(c) => c,
            None => {
                return Err(MemoryError::ConceptNotFound(ConceptId(id.0.clone())));
            },
        };
        let ghost t = match relation_type {
            Some(t) => Some(*t),
            None => None,
        };
        let ghost rels = concept.relations@;
        let mut related: Vec<Concept> = Vec::new();
        let mut i: usize = 0;
        while i < concept.relations.len()
            invariant
                self.wf(),
                rels == concept.relations@,
                i <= rels.len(),
                t == match relation_type {
                    Some(t) => Some(*t),
                    None => None,
                },
                concept_models(related@) == related_models(rels.subrange(0, i as int), self.contents(), t),
                forall|k: int| 0 <= k < related@.len() ==> (#[trigger] related@[k]).wf(),
            decreases rels.len() - i,
        {
            let rel = &concept.relations[i];
            proof {
                assert(rels.subrange(0, i + 1).drop_last() =~= rels.subrange(0, i as int));
            }
            let passes = match relation_type {
                Some(rt) => rel.relation_type.same_as(rt),
                None => true,
            };
            if passes {
                match self.concepts.get(rel.target.0.as_str()) {
                    Some(c) => {
                        assert(self.contents()[rel.target.0@].wf());
                        related.push(c.duplicate());
                    },
                    None => {},
                }
            }
            i = i + 1;
            assert(concept_models(related@) =~= related_models(rels.subrange(0, i as int), self.contents(), t));
        }
        assert(rels.subrange(0, rels.len() as int) =~= rels);
        Ok(related)
    }

    /// Replace a stored concept (as it is given) and index its lowercase
    /// name; refused when its id is not stored or its embedding does not fit.
    pub fn update(&mut self, concept: Concept) -> (r: Result<(), MemoryError>)
        requires
            old(self).wf(),
            concept.wf(),
        ensures
            final(self).wf(),
            final(self).dimension() == old(self).dimension(),
            final(self).capacity() == old(self).capacity(),
            ({
                let known = old(self).contents().dom().contains(concept@.id);
                let bad_dim = !fits_dimension(concept@.embedding_bits, old(self).dimension());
                &&& !known ==> (r matches Err(MemoryError::ConceptNotFound(x)) && x.0@ == concept@.id)
                &&& (known && bad_dim) ==> (r matches Err(MemoryError::DimensionMismatch { expected, got })
                    && expected == old(self).dimension() && got == concept@.embedding_bits.len())
                &&& (!known || bad_dim) ==> final(self).contents() == old(self).contents()
                    && final(self).names() == old(self).names()
                &&& (known && !bad_dim) ==> {
                    &&& r is Ok
                    &&& final(self).contents() == old(self).contents().insert(concept@.id, concept)
                    &&& final(self).names() == old(self).names().insert(
                        lowercase_of(concept@.name),
                        concept@.id,
                    )
                }
            }),
    {
        if !self.concepts.contains_key(concept.id.0.as_str()) {
            return Err(MemoryError::ConceptNotFound(ConceptId(concept.id.0.clone())));
        }
        if concept.embedding_bits.len() != 0 && concept.embedding_bits.len() != self.embedding_dim {
            return Err(
                MemoryError::DimensionMismatch {
                    expected: self.embedding_dim,
                    got: concept.embedding_bits.len(),
                },
            );
        }
        let name = to_lower(concept.name.as_str());
        let ghost given = concept;
        self.name_index.insert(name, ConceptId(concept.id.0.clone()));
        assert(self.names() =~= old(self).names().insert(lowercase_of(given@.name), given@.id));
        let key = concept.id.0.clone();
        self.concepts.insert(key, concept);
        assert forall|k: Seq<char>| #[trigger] self.concepts.view().dom().contains(k) implies self.concepts.view()[k]@.id == k
            && self.concepts.view()[k].wf() && fits_dimension(
            self.concepts.view()[k]@.embedding_bits,
            self.embedding_dim,
        ) by {
            if k != given@.id {
                assert(old(self).concepts.view().dom().contains(k));
            }
        }
        assert(self.concepts.view().dom() =~= old(self).concepts.view().dom());
        Ok(())
    }

    /// Delete a concept and the index entry of its lowercase name.
    pub fn delete(&mut self, id: &ConceptId) -> (r: Result<(), MemoryError>)
        requires
            old(self).wf(),
        ensures
            final(self).wf(),
            final(self).dimension() == old(self).dimension(),
            final(self).capacity() == old(self).capacity(),
            r is Ok <==> old(self).contents().dom().contains(id.0@),
            r matches Err(err) ==> (err matches MemoryError::ConceptNotFound(x) && x.0@ == id.0@)
                && final(self).contents() == old(self).contents() && final(self).names()
                == old(self).names(),
            r is Ok ==> final(self).contents() == old(self).contents().remove(id.0@)
                && final(self).names() == old(self).names().remove(
                lowercase_of(old(self).contents()[id.0@]@.name),
            ),
    {
        match self.concepts.remove(id.0.as_str()) {
            Some(concept) => {
                let name = to_lower(concept.name.as_str());
                self.name_index.remove(name.as_str());
                assert(self.names() =~= old(self).names().remove(lowercase_of(concept@.name)));
                assert forall|k: Seq<char>| #[trigger] self.concepts.view().dom().contains(k) implies self.concepts.view()[k]@.id == k
                    && self.concepts.view()[k].wf() && fits_dimension(
                    self.concepts.view()[k]@.embedding_bits,
                    self.embedding_dim,
                ) by {
                    assert(old(self).concepts.view().dom().contains(k));
                }
                proof {
                    old(self).concepts.lemma_len();
                    assert(self.concepts.view().dom() =~= old(self).concepts.view().dom().remove(id.0@));
                }
                Ok(())
            },
            None => {
                assert(self.contents() =~= old(self).contents());
                Err(MemoryError::ConceptNotFound(ConceptId(id.0.clone())))
            },
        }
    }

    /// Number of stored concepts.
    pub fn count(&self) -> (n: usize)
        requires
            self.wf(),
        ensures
            n == self.contents().dom().len(),
    {
        self.concepts.len()
    }

    /// The ids of the stored concepts, each once.
    pub fn all_ids(&self) -> (r: Vec<ConceptId>)
        requires
            self.wf(),
        ensures
            r@.map_values(|id: ConceptId| id.0@).no_duplicates(),
            r@.map_values(|id: ConceptId| id.0@).to_set() == self.contents().dom(),
    {
        let n = self.concepts.entry_count();
        let mut r: Vec<ConceptId> = Vec::new();
        let mut i: usize = 0;
        proof {
            self.concepts.lemma_view_is_entries();
            self.concepts.lemma_wf_is_unique();
        }
        let ghost es = self.concepts.entry_seq();
        while i < n
            invariant
                es == self.concepts.entry_seq(),
                n == es.len(),
                i <= n,
                crate::keyed::keys_unique(es),
                r@.len() == i,
                forall|a: int| 0 <= a < i ==> (#[trigger] r@[a]).0@ == es[a].0@,
            decreases n - i,
        {
            let (k, _c) = self.concepts.entry_at(i);
            let ghost before = r@;
            r.push(ConceptId(k.clone()));
            assert(r@[i as int].0@ == es[i as int].0@);
            assert forall|a: int| 0 <= a < i + 1 implies (#[trigger] r@[a]).0@ == es[a].0@ by {
                if a < i {
                    assert(r@[a] == before[a]);
                }
            }
            i = i + 1;
        }
        proof {
            let keys = es.map_values(|e: (String, Concept)| e.0@);
            assert(r@.map_values(|id: ConceptId| id.0@) =~= keys);
            assert(keys.no_duplicates()) by {
                assert forall|a: int, b: int| 0 <= a < keys.len() && 0 <= b < keys.len() && a != b implies keys[a] != keys[b] by {
                    assert(keys[a] == es[a].0@ && keys[b] == es[b].0@);
                }
            }
            assert(keys.to_set() =~= self.contents().dom()) by {
                assert forall|k: Seq<char>| keys.to_set().contains(k) <==> self.contents().dom().contains(k) by {
                    crate::keyed::lemma_entries_map_dom(es, k);
                    if self.contents().dom().contains(k) {
                        let j = choose|j: int| 0 <= j < es.len() && #[trigger] es[j].0@ == k;
                        assert(keys[j] == k);
                    }
                    if keys.to_set().contains(k) {
                        let j = choose|j: int| 0 <= j < keys.len() && keys[j] == k;
                        assert(es[j].0@ == k);
                    }
                }
            }
        }
        r
    }

    /// Remove every concept and name.
    pub fn clear(&mut self)
        ensures
            final(self).wf(),
            final(self).contents() == Map::<Seq<char>, Concept>::empty(),
            final(self).names() == Map::<Seq<char>, Seq<char>>::empty(),
            final(self).dimension() == old(self).dimension(),
            final(self).capacity() == old(self).capacity(),
    {
        self.concepts = KeyedMap::new();
        self.name_index = KeyedMap::new();
        assert(self.names() =~= Map::<Seq<char>, Seq<char>>::empty());
    }
}

} // verus!
