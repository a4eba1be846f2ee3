//! Memory coupling: associations between episodes and concepts, kept so
//! that each episode-concept pair is associated at most once, and looked
//! up from either side.
//!
//! Association strengths are `f32` values in [0.0, 1.0], carried as the
//! bits of the `f32`. Reinforcing an existing association adds to its
//! strength in floating point; that sum is the caller's, the store keeps
//! the clamped result and counts the activation.

use vstd::prelude::*;
use crate::keyed::str_equal;
use crate::text::{debug_str, debug_str_text, push_str};
use super::episodic::{nanos_value, now_nanos};
use super::ids::{ConceptId, EventId, MemoryError};
use super::semantic::{clamp_unit, clamp_unit_bits, UNIT_BITS};

verus! {

broadcast use vstd::seq_lib::group_seq_properties;

/// Types of associations.
#[derive(Debug, Clone, Copy, PartialEq, Eq, Hash, Structural)]
pub enum AssociationType {
    /// Direct mention in episode
    DirectMention,
    /// Inferred from context
    Inferred,
    /// User-defined/manual
    Manual,
    /// Learned from patterns
    Learned,
}

/// An association between an episode and a concept.
#[derive(Debug, Clone)]
pub struct Association {
    /// Episode ID
    pub episode_id: EventId,
    /// Concept ID
    pub concept_id: ConceptId,
    /// Strength of association (0.0 - 1.0), as the bits of its `f32` value
    pub strength_bits: u32,
    /// When this association was created (nanoseconds since the Unix epoch)
    pub created_nanos: i64,
    /// Last activation time (nanoseconds since the Unix epoch)
    pub last_activated_nanos: i64,
    /// Activation count
    pub activation_count: u32,
    /// Association type
    pub association_type: AssociationType,
}

/// The episode and concept an association joins.
pub open spec fn pair_of(a: Association) -> (Seq<char>, Seq<char>) {
    (a.episode_id.0@, a.concept_id.0@)
}

impl Association {
    /// A new association created and activated now, never activated
    /// since, its strength clamped to [0.0, 1.0].
    pub fn new(
        episode_id: EventId,
        concept_id: ConceptId,
        strength_bits: u32,
        association_type: AssociationType,
    ) -> (a: Self)
        ensures
            a.episode_id == episode_id,
            a.concept_id == concept_id,
            a.strength_bits == clamp_unit(strength_bits),
            a.last_activated_nanos == a.created_nanos,
            exists|n: Option<i64>| a.created_nanos == nanos_value(n),
            a.activation_count == 0,
            a.association_type == association_type,
    {
        let now = now_nanos();
        Association {
            episode_id,
            concept_id,
            strength_bits: clamp_unit_bits(strength_bits),
            created_nanos: now,
            last_activated_nanos: now,
            activation_count: 0,
            association_type,
        }
    }

    /// A direct-mention association.
    pub fn direct(episode_id: EventId, concept_id: ConceptId, strength_bits: u32) -> (a: Self)
        ensures
            a.episode_id == episode_id,
            a.concept_id == concept_id,
            a.strength_bits == clamp_unit(strength_bits),
            a.last_activated_nanos == a.created_nanos,
            exists|n: Option<i64>| a.created_nanos == nanos_value(n),
            a.activation_count == 0,
            a.association_type == AssociationType::DirectMention,
    {
        Association::new(episode_id, concept_id, strength_bits, AssociationType::DirectMention)
    }

    /// An inferred association.
    pub fn inferred(episode_id: EventId, concept_id: ConceptId, strength_bits: u32) -> (a: Self)
        ensures
            a.episode_id == episode_id,
            a.concept_id == concept_id,
            a.strength_bits == clamp_unit(strength_bits),
            a.last_activated_nanos == a.created_nanos,
            exists|n: Option<i64>| a.created_nanos == nanos_value(n),
            a.activation_count == 0,
            a.association_type == AssociationType::Inferred,
    {
        Association::new(episode_id, concept_id, strength_bits, AssociationType::Inferred)
    }

    /// Activate: one more activation, last activated now.
    pub fn activate(&mut self)
        requires
            old(self).activation_count < u32::MAX,
        ensures
            exists|n: Option<i64>|
                *final(self) == (Association {
                    activation_count: (old(self).activation_count + 1) as u32,
                    last_activated_nanos: #[trigger] nanos_value(n),
                    ..*old(self)
                }),
    {
        self.activation_count = self.activation_count + 1;
        self.last_activated_nanos = now_nanos();
    }

    /// Set the strength, clamped to [0.0, 1.0].
    pub fn set_strength(&mut self, strength_bits: u32)
        ensures
            *final(self) == (Association { strength_bits: clamp_unit(strength_bits), ..*old(self) }),
    {
        self.strength_bits = clamp_unit_bits(strength_bits);
    }

    /// A copy of this association.
    pub fn duplicate(&self) -> (r: Self)
        ensures
            r == *self,
    {
        Association {
            episode_id: EventId(self.episode_id.0.clone()),
            concept_id: ConceptId(self.concept_id.0.clone()),
            strength_bits: self.strength_bits,
            created_nanos: self.created_nanos,
            last_activated_nanos: self.last_activated_nanos,
            activation_count: self.activation_count,
            association_type: self.association_type,
        }
    }
}

/// What associating an already associated pair leaves to the caller.
#[derive(Debug, Clone, Copy, PartialEq, Eq, Structural)]
pub enum AssociateOutcome {
    /// A new association was created
    Created,
    /// The pair was associated already (nothing changed); its strength,
    /// as the bits of an `f32`
    Existing { strength_bits: u32 },
}

/// Associations of an episode.
pub open spec fn of_episode(e: Seq<char>) -> spec_fn(Association) -> bool {
    |a: Association| a.episode_id.0@ == e
}

/// Associations of a concept.
pub open spec fn of_concept(c: Seq<char>) -> spec_fn(Association) -> bool {
    |a: Association| a.concept_id.0@ == c
}

/// Associations other than the one joining `e` and `c`.
pub open spec fn not_pair(e: Seq<char>, c: Seq<char>) -> spec_fn(Association) -> bool {
    |a: Association| pair_of(a) != (e, c)
}

/// Associations of other episodes.
pub open spec fn not_of_episode(e: Seq<char>) -> spec_fn(Association) -> bool {
    |a: Association| a.episode_id.0@ != e
}

/// Associations of other concepts.
pub open spec fn not_of_concept(c: Seq<char>) -> spec_fn(Association) -> bool {
    |a: Association| a.concept_id.0@ != c
}

/// What a removal takes away: one pair, or everything of an episode or of a concept.
enum Removal {
    Pair,
    Episode,
    Concept,
}

/// The associations a removal leaves.
spec fn kept_by(r: Removal, e: Seq<char>, c: Seq<char>) -> spec_fn(Association) -> bool {
    match r {
        Removal::Pair => not_pair(e, c),
        Removal::Episode => not_of_episode(e),
        Removal::Concept => not_of_concept(c),
    }
}

/// The associations that references point to.
pub open spec fn pointed_associations(v: Seq<&Association>) -> Seq<Association> {
    v.map_values(|a: &Association| *a)
}

/// Whether some association joins `e` and `c`.
pub open spec fn has_pair(s: Seq<Association>, e: Seq<char>, c: Seq<char>) -> bool {
    exists|i: int| 0 <= i < s.len() && pair_of(#[trigger] s[i]) == (e, c)
}

/// Each pair is associated at most once.
pub open spec fn pairs_unique(s: Seq<Association>) -> bool {
    forall|i: int, j: int|
        0 <= i < s.len() && 0 <= j < s.len() && i != j ==> pair_of(#[trigger] s[i]) != pair_of(
            #[trigger] s[j],
        )
}

/// The message of a missing association.
pub open spec fn missing_association_text(e: Seq<char>, c: Seq<char>) -> Seq<char> {
    "Association not found: EventId("@ + debug_str_text(e) + ") -> ConceptId("@ + debug_str_text(c)
        + ")"@
}

/// In-memory coupling store.
#[derive(Debug)]
pub struct InMemoryCoupling {
    /// The associations, in order of creation
    associations: Vec<Association>,
}

impl InMemoryCoupling {
    /// The associations, in order of creation.
    pub closed spec fn entries(&self) -> Seq<Association> {
        self.associations@
    }

    /// Each pair is associated at most once.
    pub closed spec fn wf(&self) -> bool {
        pairs_unique(self.associations@)
    }

    /// A store with no associations.
    pub fn new() -> (s: Self)
        ensures
            s.wf(),
            s.entries().len() == 0,
    {
        InMemoryCoupling { associations: Vec::new() }
    }

    /// The place of the association joining `e` and `c`, if any.
    fn position(&self, episode_id: &EventId, concept_id: &ConceptId) -> (r: Option<usize>)
        requires
            self.wf(),
        ensures
            match r {
                Some(i) => i < self.entries().len() && pair_of(self.entries()[i as int]) == (
                    episode_id.0@,
                    concept_id.0@,
                ),
                None => !has_pair(self.entries(), episode_id.0@, concept_id.0@),
            },
    {
        let mut i: usize = 0;
        while i < self.associations.len()
            invariant
                i <= self.associations@.len(),
                forall|j: int|
                    0 <= j < i ==> pair_of(#[trigger] self.associations@[j]) != (
                        episode_id.0@,
                        concept_id.0@,
                    ),
            decreases self.associations@.len() - i,
        {
            let a = &self.associations[i];
            if str_equal(a.episode_id.0.as_str(), episode_id.0.as_str()) && str_equal(
                a.concept_id.0.as_str(),
                concept_id.0.as_str(),
            ) {
                return Some(i);
            }
            i = i + 1;
        }
        None
    }

    /// Associate an episode with a concept at full strength as a direct
    /// mention (see `associate_with_strength`).
    pub fn associate(&mut self, episode_id: EventId, concept_id: ConceptId) -> (r: Result<
        AssociateOutcome,
        MemoryError,
    >)
        requires
            old(self).wf(),
        ensures
            final(self).wf(),
            ({
                let (e, c) = (episode_id.0@, concept_id.0@);
                &&& has_pair(old(self).entries(), e, c) ==> final(self).entries() == old(self).entries()
                    && exists|i: int|
                    0 <= i < old(self).entries().len() && pair_of(#[trigger] old(self).entries()[i]) == (e, c)
                        && r == Ok::<AssociateOutcome, MemoryError>(
                        AssociateOutcome::Existing { strength_bits: old(self).entries()[i].strength_bits },
                    )
                &&& !has_pair(old(self).entries(), e, c) ==> {
                    &&& r == Ok::<AssociateOutcome, MemoryError>(AssociateOutcome::Created)
                    &&& final(self).entries().len() == old(self).entries().len() + 1
                    &&& final(self).entries().drop_last() == old(self).entries()
                    &&& final(self).entries().last().episode_id == episode_id
                    &&& final(self).entries().last().concept_id == concept_id
                    &&& final(self).entries().last().strength_bits == UNIT_BITS
                    &&& final(self).entries().last().activation_count == 0
                    &&& final(self).entries().last().association_type == AssociationType::DirectMention
                }
            }),
    {
        self.associate_with_strength(episode_id, concept_id, UNIT_BITS, AssociationType::DirectMention)
    }

    /// Associate an episode with a concept. A new pair gets an association
    /// of the given type and strength (clamped), created now. A pair
    /// associated already is left as it is and its strength reported, for
    /// the caller to reinforce.
    pub fn associate_with_strength(
        &mut self,
        episode_id: EventId,
        concept_id: ConceptId,
        strength_bits: u32,
        association_type: AssociationType,
    ) -> (r: Result<AssociateOutcome, MemoryError>)
        requires
            old(self).wf(),
        ensures
            final(self).wf(),
            ({
                let (e, c) = (episode_id.0@, concept_id.0@);
                &&& has_pair(old(self).entries(), e, c) ==> final(self).entries() == old(self).entries()
                    && exists|i: int|
                    0 <= i < old(self).entries().len() && pair_of(#[trigger] old(self).entries()[i]) == (e, c)
                        && r == Ok::<AssociateOutcome, MemoryError>(
                        AssociateOutcome::Existing { strength_bits: old(self).entries()[i].strength_bits },
                    )
                &&& !has_pair(old(self).entries(), e, c) ==> {
                    &&& r == Ok::<AssociateOutcome, MemoryError>(AssociateOutcome::Created)
                    &&& final(self).entries().len() == old(self).entries().len() + 1
                    &&& final(self).entries().drop_last() == old(self).entries()
                    &&& final(self).entries().last().episode_id == episode_id
                    &&& final(self).entries().last().concept_id == concept_id
                    &&& final(self).entries().last().strength_bits == clamp_unit(strength_bits)
                    &&& final(self).entries().last().last_activated_nanos
                        == final(self).entries().last().created_nanos
                    &&& exists|n: Option<i64>|
                        final(self).entries().last().created_nanos == #[trigger] nanos_value(n)
                    &&& final(self).entries().last().activation_count == 0
                    &&& final(self).entries().last().association_type == association_type
                }
            }),
    {
        match self.position(&episode_id, &concept_id) {
            Some(i) => Ok(AssociateOutcome::Existing { strength_bits: self.associations[i].strength_bits }),
            None => {
                let a = Association::new(episode_id, concept_id, strength_bits, association_type);
                let ghost before = self.associations@;
                self.associations.push(a);
                assert(self.associations@.drop_last() =~= before);
                assert forall|i: int, j: int|
                    0 <= i < self.associations@.len() && 0 <= j < self.associations@.len() && i != j
                        implies pair_of(#[trigger] self.associations@[i]) != pair_of(
                        #[trigger] self.associations@[j],
                    ) by {
                    if i < before.len() && j < before.len() {
                        assert(self.associations@[i] == before[i]);
                        assert(self.associations@[j] == before[j]);
                    } else if i < before.len() {
                        assert(self.associations@[i] == before[i]);
                    } else {
                        assert(self.associations@[j] == before[j]);
                    }
                }
                Ok(AssociateOutcome::Created)
            },
        }
    }

    /// Set the strength of an existing association (clamped to [0.0, 1.0])
    /// and activate it; a missing association is a storage error.
    pub fn strengthen_to(&mut self, episode_id: &EventId, concept_id: &ConceptId, strength_bits: u32) -> (r:
        Result<(), MemoryError>)
        requires
            old(self).wf(),
            forall|i: int|
                0 <= i < old(self).entries().len() && pair_of(#[trigger] old(self).entries()[i]) == (
                    episode_id.0@,
                    concept_id.0@,
                ) ==> old(self).entries()[i].activation_count < u32::MAX,
        ensures
            final(self).wf(),
            final(self).entries().len() == old(self).entries().len(),
            r is Ok <==> has_pair(old(self).entries(), episode_id.0@, concept_id.0@),
            r matches Err(err) ==> (err matches MemoryError::Storage(m) && m@ == missing_association_text(
                episode_id.0@,
                concept_id.0@,
            )) && final(self).entries() == old(self).entries(),
            r is Ok ==> exists|i: int, n: Option<i64>|
                0 <= i < old(self).entries().len() && pair_of(#[trigger] old(self).entries()[i]) == (
                    episode_id.0@,
                    concept_id.0@,
                ) && final(self).entries() == old(self).entries().update(
                    i,
                    Association {
                        strength_bits: clamp_unit(strength_bits),
                        activation_count: (old(self).entries()[i].activation_count + 1) as u32,
                        last_activated_nanos: #[trigger] nanos_value(n),
                        ..old(self).entries()[i]
                    },
                ),
    {
        match self.position(episode_id, concept_id) {
            Some(i) => {
                let mut a = self.associations[i].duplicate();
                a.set_strength(strength_bits);
                a.activate();
                let ghost before = self.associations@;
                self.associations.set(i, a);
                assert forall|x: int, y: int|
                    0 <= x < self.associations@.len() && 0 <= y < self.associations@.len() && x != y
                        implies pair_of(#[trigger] self.associations@[x]) != pair_of(
                        #[trigger] self.associations@[y],
                    ) by {
                    assert(pair_of(self.associations@[x]) == pair_of(before[x]));
                    assert(pair_of(self.associations@[y]) == pair_of(before[y]));
                }
                Ok(())
            },
            None => {
                let mut m = String::new();
                push_str(&mut m, "Association not found: EventId(");
                let e = debug_str(episode_id.0.as_str());
                push_str(&mut m, e.as_str());
                push_str(&mut m, ") -> ConceptId(");
                let c = debug_str(concept_id.0.as_str());
                push_str(&mut m, c.as_str());
                push_str(&mut m, ")");
                Err(MemoryError::Storage(m))
            },
        }
    }

    /// The associations of an episode, in order of creation.
    pub fn associations_for_episode(&self, episode_id: &EventId) -> (r: Vec<&Association>)
        ensures
            pointed_associations(r@) == self.entries().filter(of_episode(episode_id.0@)),
    {
        let ghost pred = of_episode(episode_id.0@);
        let mut r: Vec<&Association> = Vec::new();
        let mut i: usize = 0;
        while i < self.associations.len()
            invariant
                i <= self.associations@.len(),
                pred == of_episode(episode_id.0@),
                pointed_associations(r@) == self.associations@.subrange(0, i as int).filter(pred),
            decreases self.associations@.len() - i,
        {
            proof {
                assert(self.associations@.subrange(0, i + 1).drop_last() =~= self.associations@.subrange(0, i as int));
                reveal(Seq::filter);
            }
            let a = &self.associations[i];
            if str_equal(a.episode_id.0.as_str(), episode_id.0.as_str()) {
                r.push(a);
            }
            i = i + 1;
            assert(pointed_associations(r@) =~= self.associations@.subrange(0, i as int).filter(pred));
        }
        assert(self.associations@.subrange(0, self.associations@.len() as int) =~= self.associations@);
        r
    }

    /// The associations of a concept, in order of creation.
    pub fn associations_for_concept(&self, concept_id: &ConceptId) -> (r: Vec<&Association>)
        ensures
            pointed_associations(r@) == self.entries().filter(of_concept(concept_id.0@)),
    {
        let ghost pred = of_concept(concept_id.0@);
        let mut r: Vec<&Association> = Vec::new();
        let mut i: usize = 0;
        while i < self.associations.len()
            invariant
                i <= self.associations@.len(),
                pred == of_concept(concept_id.0@),
                pointed_associations(r@) == self.associations@.subrange(0, i as int).filter(pred),
            decreases self.associations@.len() - i,
        {
            proof {
                assert(self.associations@.subrange(0, i + 1).drop_last() =~= self.associations@.subrange(0, i as int));
                reveal(Seq::filter);
            }
            let a = &self.associations[i];
            if str_equal(a.concept_id.0.as_str(), concept_id.0.as_str()) {
                r.push(a);
            }
            i = i + 1;
            assert(pointed_associations(r@) =~= self.associations@.subrange(0, i as int).filter(pred));
        }
        assert(self.associations@.subrange(0, self.associations@.len() as int) =~= self.associations@);
        r
    }

    /// The concepts associated with an episode, in order of association.
    pub fn concepts_for_episode(&self, episode_id: &EventId) -> (r: Result<Vec<ConceptId>, MemoryError>)
        ensures
            r matches Ok(v) && v@ == self.entries().filter(of_episode(episode_id.0@)).map_values(
                |a: Association| a.concept_id,
            ),
    {
        let found = self.associations_for_episode(episode_id);
        let mut v: Vec<ConceptId> = Vec::new();
        let mut i: usize = 0;
        while i < found.len()
            invariant
                i <= found@.len(),
                v@ == pointed_associations(found@).subrange(0, i as int).map_values(
                    |a: Association| a.concept_id,
                ),
            decreases found@.len() - i,
        {
            v.push(ConceptId(found[i].concept_id.0.clone()));
            i = i + 1;
            assert(v@ =~= pointed_associations(found@).subrange(0, i as int).map_values(
                |a: Association| a.concept_id,
            ));
        }
        assert(pointed_associations(found@).subrange(0, found@.len() as int) =~= pointed_associations(found@));
        Ok(v)
    }

    /// The episodes associated with a concept, in order of association.
    pub fn episode_ids_for_concept(&self, concept_id: &ConceptId) -> (r: Result<Vec<EventId>, MemoryError>)
        ensures
            r matches Ok(v) && v@ == self.entries().filter(of_concept(concept_id.0@)).map_values(
                |a: Association| a.episode_id,
            ),
    {
        let found = self.associations_for_concept(concept_id);
        let mut v: Vec<EventId> = Vec::new();
        let mut i: usize = 0;
        while i < found.len()
            invariant
                i <= found@.len(),
                v@ == pointed_associations(found@).subrange(0, i as int).map_values(
                    |a: Association| a.episode_id,
                ),
            decreases found@.len() - i,
        {
            v.push(EventId(found[i].episode_id.0.clone()));
            i = i + 1;
            assert(v@ =~= pointed_associations(found@).subrange(0, i as int).map_values(
                |a: Association| a.episode_id,
            ));
        }
        assert(pointed_associations(found@).subrange(0, found@.len() as int) =~= pointed_associations(found@));
        Ok(v)
    }

    /// The association joining an episode and a concept, if any.
    pub fn get_association(&self, episode_id: &EventId, concept_id: &ConceptId) -> (r: Result<
        Option<Association>,
        MemoryError,
    >)
        requires
            self.wf(),
        ensures
            r matches Ok(o) && match o {
                Some(a) => pair_of(a) == (episode_id.0@, concept_id.0@) && exists|i: int|
                    0 <= i < self.entries().len() && #[trigger] self.entries()[i] == a,
                None => !has_pair(self.entries(), episode_id.0@, concept_id.0@),
            },
    {
        match self.position(episode_id, concept_id) {
            Some(i) => Ok(Some(self.associations[i].duplicate())),
            None => Ok(None),
        }
    }

    /// Remove the association joining an episode and a concept (none
    /// there is no error).
    pub fn disassociate(&mut self, episode_id: &EventId, concept_id: &ConceptId) -> (r: Result<(), MemoryError>)
        requires
            old(self).wf(),
        ensures
            final(self).wf(),
            r is Ok,
            final(self).entries() == old(self).entries().filter(not_pair(episode_id.0@, concept_id.0@)),
    {
        let kept = self.keep(Removal::Pair, episode_id, concept_id);
        self.associations = kept;
        Ok(())
    }

    /// The associations that a removal leaves.
    fn keep(&self, removal: Removal, episode_id: &EventId, concept_id: &ConceptId) -> (r: Vec<Association>)
        requires
            self.wf(),
        ensures
            r@ == self.entries().filter(kept_by(removal, episode_id.0@, concept_id.0@)),
            pairs_unique(r@),
    {
        let ghost pred = kept_by(removal, episode_id.0@, concept_id.0@);
        let mut r: Vec<Association> = Vec::new();
        let mut i: usize = 0;
        while i < self.associations.len()
            invariant
                self.wf(),
                pred == kept_by(removal, episode_id.0@, concept_id.0@),
                i <= self.associations@.len(),
                r@ == self.associations@.subrange(0, i as int).filter(pred),
            decreases self.associations@.len() - i,
        {
            proof {
                assert(self.associations@.subrange(0, i + 1).drop_last() =~= self.associations@.subrange(0, i as int));
                reveal(Seq::filter);
            }
            let a = &self.associations[i];
            let same_episode = str_equal(a.episode_id.0.as_str(), episode_id.0.as_str());
            let same_concept = str_equal(a.concept_id.0.as_str(), concept_id.0.as_str());
            let keep = match removal {
                Removal::Pair => !(same_episode && same_concept),
                Removal::Episode => !same_episode,
                Removal::Concept => !same_concept,
            };
            if keep {
                r.push(a.duplicate());
            }
            i = i + 1;
        }
        assert(self.associations@.subrange(0, self.associations@.len() as int) =~= self.associations@);
        proof {
            lemma_filter_keeps_unique(self.associations@, pred);
        }
        r
    }

    /// Remove every association of an episode; the number removed is returned.
    pub fn remove_episode_associations(&mut self, episode_id: &EventId) -> (r: Result<usize, MemoryError>)
        requires
            old(self).wf(),
        ensures
            final(self).wf(),
            r matches Ok(n) && n == old(self).entries().filter(of_episode(episode_id.0@)).len(),
            final(self).entries() == old(self).entries().filter(not_of_episode(episode_id.0@)),
    {
        let count = self.associations_for_episode(episode_id).len();
        let unused = ConceptId(String::new());
        let kept = self.keep(Removal::Episode, episode_id, &unused);
        assert(kept_by(Removal::Episode, episode_id.0@, unused.0@) == not_of_episode(episode_id.0@));
        self.associations = kept;
        Ok(count)
    }

    /// Remove every association of a concept; the number removed is returned.
    pub fn remove_concept_associations(&mut self, concept_id: &ConceptId) -> (r: Result<usize, MemoryError>)
        requires
            old(self).wf(),
        ensures
            final(self).wf(),
            r matches Ok(n) && n == old(self).entries().filter(of_concept(concept_id.0@)).len(),
            final(self).entries() == old(self).entries().filter(not_of_concept(concept_id.0@)),
    {
        let count = self.associations_for_concept(concept_id).len();
        let unused = EventId(String::new());
        let kept = self.keep(Removal::Concept, &unused, concept_id);
        assert(kept_by(Removal::Concept, unused.0@, concept_id.0@) == not_of_concept(concept_id.0@));
        self.associations = kept;
        Ok(count)
    }

    /// Number of associations.
    pub fn count(&self) -> (n: usize)
        ensures
            n == self.entries().len(),
    {
        self.associations.len()
    }

    /// Remove every association.
    pub fn clear(&mut self)
        ensures
            final(self).wf(),
            final(self).entries().len() == 0,
    {
        self.associations = Vec::new();
    }
}

impl Default for InMemoryCoupling {
    fn default() -> (s: Self)
        ensures
            s.wf(),
            s.entries().len() == 0,
    {
        InMemoryCoupling::new()
    }
}

/// Keeping some of the associations keeps each pair at most once.
proof fn lemma_filter_keeps_unique(s: Seq<Association>, pred: spec_fn(Association) -> bool)
    requires
        pairs_unique(s),
    ensures
        pairs_unique(s.filter(pred)),
    decreases s.len(),
{
    reveal(Seq::filter);
    if s.len() > 0 {
        let init = s.drop_last();
        assert(pairs_unique(init)) by {
            assert forall|i: int, j: int|
                0 <= i < init.len() && 0 <= j < init.len() && i != j implies pair_of(#[trigger] init[i])
                != pair_of(#[trigger] init[j]) by {
                assert(init[i] == s[i] && init[j] == s[j]);
            }
        }
        lemma_filter_keeps_unique(init, pred);
        let f = init.filter(pred);
        if pred(s.last()) {
            assert forall|x: int| 0 <= x < f.len() implies pair_of(#[trigger] f[x]) != pair_of(s.last()) by {
                assert(f.contains(f[x]));
                lemma_filter_contains(init, pred, f[x]);
                let k = choose|k: int| 0 <= k < init.len() && init[k] == f[x];
                assert(s[k] == init[k]);
                assert(pair_of(s[k]) != pair_of(s[s.len() - 1]));
            }
            let g = f.push(s.last());
            assert forall|i: int, j: int|
                0 <= i < g.len() && 0 <= j < g.len() && i != j implies pair_of(#[trigger] g[i]) != pair_of(
                #[trigger] g[j],
            ) by {
                if i < f.len() && j < f.len() {
                    assert(g[i] == f[i] && g[j] == f[j]);
                } else if i < f.len() {
                    assert(g[i] == f[i]);
                } else {
                    assert(g[j] == f[j]);
                }
            }
        }
    }
}

/// A filter keeps exactly the elements that were there and pass it.
proof fn lemma_filter_contains<A>(s: Seq<A>, pred: spec_fn(A) -> bool, x: A)
    ensures
        s.filter(pred).contains(x) <==> s.contains(x) && pred(x),
    decreases s.len(),
{
    reveal(Seq::filter);
    if s.len() > 0 {
        let init = s.drop_last();
        lemma_filter_contains(init, pred, x);
        let f = init.filter(pred);
        if s.filter(pred).contains(x) {
            if pred(s.last()) && x == s.last() {
                assert(s[s.len() - 1] == x);
            } else {
                if pred(s.last()) {
                    let i = choose|i: int| 0 <= i < f.push(s.last()).len() && f.push(s.last())[i] == x;
                    assert(f[i] == x);
                }
                let k = choose|k: int| 0 <= k < init.len() && init[k] == x;
                assert(s[k] == x);
            }
        }
        if s.contains(x) && pred(x) {
            let k = choose|k: int| 0 <= k < s.len() && s[k] == x;
            if k == s.len() - 1 {
                assert(f.push(s.last())[f.len() as int] == x);
            } else {
                assert(init[k] == x);
                let i = choose|i: int| 0 <= i < f.len() && f[i] == x;
                if pred(s.last()) {
                    assert(f.push(s.last())[i] == x);
                }
            }
        }
    }
}

/// Coupling is symmetric: a concept is among an episode's associations
/// exactly when that episode is among the concept's associations (both
/// hold just when the pair is associated).
pub proof fn law_coupling_is_symmetric(s: Seq<Association>, e: Seq<char>, c: Seq<char>)
    ensures
        (exists|i: int|
            0 <= i < s.filter(of_episode(e)).len() && (#[trigger] s.filter(of_episode(e))[i]).concept_id.0@
                == c) <==> has_pair(s, e, c),
        (exists|j: int|
            0 <= j < s.filter(of_concept(c)).len() && (#[trigger] s.filter(of_concept(c))[j]).episode_id.0@
                == e) <==> has_pair(s, e, c),
{
    let fe = s.filter(of_episode(e));
    let fc = s.filter(of_concept(c));
    if has_pair(s, e, c) {
        let i = choose|i: int| 0 <= i < s.len() && pair_of(#[trigger] s[i]) == (e, c);
        lemma_filter_contains(s, of_episode(e), s[i]);
        lemma_filter_contains(s, of_concept(c), s[i]);
        let a = choose|a: int| 0 <= a < fe.len() && fe[a] == s[i];
        assert(fe[a].concept_id.0@ == c);
        let b = choose|b: int| 0 <= b < fc.len() && fc[b] == s[i];
        assert(fc[b].episode_id.0@ == e);
    }
    if exists|i: int| 0 <= i < fe.len() && (#[trigger] fe[i]).concept_id.0@ == c {
        let i = choose|i: int| 0 <= i < fe.len() && (#[trigger] fe[i]).concept_id.0@ == c;
        assert(fe.contains(fe[i]));
        lemma_filter_contains(s, of_episode(e), fe[i]);
        let k = choose|k: int| 0 <= k < s.len() && s[k] == fe[i];
        assert(pair_of(s[k]) == (e, c));
    }
    if exists|j: int| 0 <= j < fc.len() && (#[trigger] fc[j]).episode_id.0@ == e {
        let j = choose|j: int| 0 <= j < fc.len() && (#[trigger] fc[j]).episode_id.0@ == e;
        assert(fc.contains(fc[j]));
        lemma_filter_contains(s, of_concept(c), fc[j]);
        let k = choose|k: int| 0 <= k < s.len() && s[k] == fc[j];
        assert(pair_of(s[k]) == (e, c));
    }
}

/// Removing a pair twice leaves what removing it once leaves:
/// disassociating is idempotent.
pub proof fn law_disassociate_idempotent(s: Seq<Association>, e: Seq<char>, c: Seq<char>)
    ensures
        s.filter(not_pair(e, c)).filter(not_pair(e, c)) == s.filter(not_pair(e, c)),
    decreases s.len(),
{
    reveal(Seq::filter);
    if s.len() > 0 {
        law_disassociate_idempotent(s.drop_last(), e, c);
        let f = s.drop_last().filter(not_pair(e, c));
        if not_pair(e, c)(s.last()) {
            assert(f.push(s.last()).drop_last() =~= f);
        }
    }
}

/// Removing an episode's associations removes exactly those counted as
/// its associations: what is removed and what is left add up to all.
pub proof fn law_removed_and_kept_partition(s: Seq<Association>, e: Seq<char>)
    ensures
        s.filter(of_episode(e)).len() + s.filter(not_of_episode(e)).len() == s.len(),
    decreases s.len(),
{
    reveal(Seq::filter);
    if s.len() > 0 {
        law_removed_and_kept_partition(s.drop_last(), e);
    }
}

} // verus!
