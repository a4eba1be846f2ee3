//! The bookkeeping of the memory bridge (its counters, the recent events
//! kept for credit assignment and the events recorded per goal) and the
//! adapter between episodes and graph-node features.

use vstd::prelude::*;
use std::collections::HashMap;
use crate::text::{decimal_text, push_decimal, push_str};
use super::episodic::EpisodeType;
use super::ids::EventId;
use crate::text::str_chars;

verus! {

broadcast use vstd::std_specs::hash::group_hash_axioms;

/// Result of integrated consolidation.
#[derive(Debug, Clone, Copy, PartialEq, Eq, Structural)]
pub struct IntegrationConsolidationResult {
    /// Episodes processed
    pub episodes_processed: usize,
    /// Episodes merged
    pub episodes_merged: usize,
    /// Concepts extracted
    pub concepts_extracted: usize,
    /// Associations strengthened
    pub associations_strengthened: usize,
    /// Episode number
    pub episode: usize,
}

impl Default for IntegrationConsolidationResult {
    fn default() -> (r: Self)
        ensures
            r == (IntegrationConsolidationResult {
                episodes_processed: 0,
                episodes_merged: 0,
                concepts_extracted: 0,
                associations_strengthened: 0,
                episode: 0,
            }),
    {
        IntegrationConsolidationResult {
            episodes_processed: 0,
            episodes_merged: 0,
            concepts_extracted: 0,
            associations_strengthened: 0,
            episode: 0,
        }
    }
}

/// Statistics for memory-compounding integration.
#[derive(Debug, Clone, Copy, PartialEq, Eq, Structural)]
pub struct IntegrationStats {
    /// Total coherence-modulated records
    pub coherence_records: usize,
    /// Total coherence-modulated retrievals
    pub coherence_retrievals: usize,
    /// Total credit assignments received
    pub credits_received: usize,
    /// Total planning context requests
    pub planning_requests: usize,
    /// Total episodes consolidated
    pub episodes_consolidated: usize,
}

impl Default for IntegrationStats {
    fn default() -> (s: Self)
        ensures
            s == (IntegrationStats {
                coherence_records: 0,
                coherence_retrievals: 0,
                credits_received: 0,
                planning_requests: 0,
                episodes_consolidated: 0,
            }),
    {
        IntegrationStats {
            coherence_records: 0,
            coherence_retrievals: 0,
            credits_received: 0,
            planning_requests: 0,
            episodes_consolidated: 0,
        }
    }
}

/// How many recent events a ledger keeps by default.
pub const MAX_RECENT_EVENTS: usize = 100;

/// A copy of a list of event ids.
fn copy_events(v: &Vec<EventId>) -> (r: Vec<EventId>)
    ensures
        r@ == v@,
{
    let mut r: Vec<EventId> = Vec::new();
    let mut i: usize = 0;
    while i < v.len()
        invariant
            i <= v@.len(),
            r@ == v@.subrange(0, i as int),
        decreases v@.len() - i,
    {
        r.push(EventId(v[i].0.clone()));
        i = i + 1;
    }
    assert(r@ =~= v@);
    r
}

/// The events kept after one more: appended, the oldest dropped when more
/// than `max` would be kept.
pub open spec fn kept_events(recent: Seq<EventId>, id: EventId, max: usize) -> Seq<EventId> {
    if recent.len() + 1 > max {
        recent.push(id).drop_first()
    } else {
        recent.push(id)
    }
}

/// The summary line of a bridge.
pub open spec fn bridge_summary_text(episode: usize, s: IntegrationStats) -> Seq<char> {
    "MemoryBridge: "@ + decimal_text(episode as nat) + " episodes, "@ + decimal_text(
        s.coherence_records as nat,
    ) + " coherence_records, "@ + decimal_text(s.coherence_retrievals as nat) + " retrievals, "@
        + decimal_text(s.credits_received as nat) + " credits"@
}

/// The credit-assignment record of a memory bridge: the most recent
/// events (oldest first, no more than a bound) and the events associated
/// with each goal.
#[derive(Debug)]
pub struct CreditLedger {
    /// Recent event IDs for credit assignment
    recent_events: Vec<EventId>,
    /// Maximum recent events to track
    max_recent_events: usize,
    /// Goal-to-events mapping for credit assignment
    goal_events: HashMap<usize, Vec<EventId>>,
}

impl CreditLedger {
    /// The recent events, oldest first.
    pub closed spec fn recent(&self) -> Seq<EventId> {
        self.recent_events@
    }

    /// The bound on the recent events.
    pub closed spec fn max_recent(&self) -> usize {
        self.max_recent_events
    }

    /// The events recorded for each goal.
    pub closed spec fn goals(&self) -> Map<usize, Seq<EventId>> {
        self.goal_events@.map_values(|v: Vec<EventId>| v@)
    }

    /// No more recent events are kept than the bound.
    pub closed spec fn wf(&self) -> bool {
        self.recent_events@.len() <= self.max_recent_events
    }

    /// A ledger with no events and no goals, keeping up to 100 recent events.
    pub fn new() -> (l: Self)
        ensures
            l.wf(),
            l.recent().len() == 0,
            l.max_recent() == MAX_RECENT_EVENTS,
            l.goals() == Map::<usize, Seq<EventId>>::empty(),
    {
        let l = CreditLedger {
            recent_events: Vec::new(),
            max_recent_events: MAX_RECENT_EVENTS,
            goal_events: HashMap::new(),
        };
        assert(l.goals() =~= Map::<usize, Seq<EventId>>::empty());
        l
    }

    /// The recent events, oldest first.
    pub fn recent_events(&self) -> (r: &Vec<EventId>)
        ensures
            r@ == self.recent(),
    {
        &self.recent_events
    }

    /// Keep an event as the most recent, dropping the oldest when the
    /// bound is exceeded.
    pub fn track_event(&mut self, event_id: EventId)
        requires
            old(self).wf(),
        ensures
            final(self).wf(),
            final(self).recent() == kept_events(old(self).recent(), event_id, old(self).max_recent()),
            final(self).max_recent() == old(self).max_recent(),
            final(self).goals() == old(self).goals(),
    {
        self.recent_events.push(event_id);
        if self.recent_events.len() > self.max_recent_events {
            self.recent_events.remove(0);
        }
    }

    /// Associate the current recent events with a goal (replacing what
    /// the goal had).
    pub fn associate_with_goal(&mut self, goal_id: usize)
        requires
            old(self).wf(),
        ensures
            final(self).wf(),
            final(self).goals() == old(self).goals().insert(goal_id, old(self).recent()),
            final(self).recent() == old(self).recent(),
            final(self).max_recent() == old(self).max_recent(),
    {
        let events = copy_events(&self.recent_events);
        self.goal_events.insert(goal_id, events);
        assert(self.goals() =~= old(self).goals().insert(goal_id, old(self).recent()));
    }

    /// The events associated with a goal (none when there are none), and
    /// forget the goal.
    pub fn take_goal_events(&mut self, goal_id: usize) -> (r: Vec<EventId>)
        requires
            old(self).wf(),
        ensures
            final(self).wf(),
            r@ == if old(self).goals().contains_key(goal_id) {
                old(self).goals()[goal_id]
            } else {
                Seq::<EventId>::empty()
            },
            final(self).goals() == old(self).goals().remove(goal_id),
            final(self).recent() == old(self).recent(),
            final(self).max_recent() == old(self).max_recent(),
    {
        let r = match self.goal_events.remove(&goal_id) {
            Some(v) => v,
            None => Vec::new(),
        };
        assert(self.goals() =~= old(self).goals().remove(goal_id));
        r
    }
}

/// A bridge's one-line summary: its episode number and integration counts.
pub fn bridge_summary(current_episode: usize, stats: &IntegrationStats) -> (s: String)
    ensures
        s@ == bridge_summary_text(current_episode, *stats),
{
    let mut s = String::new();
    push_str(&mut s, "MemoryBridge: ");
    push_decimal(&mut s, current_episode as u64);
    push_str(&mut s, " episodes, ");
    push_decimal(&mut s, stats.coherence_records as u64);
    push_str(&mut s, " coherence_records, ");
    push_decimal(&mut s, stats.coherence_retrievals as u64);
    push_str(&mut s, " retrievals, ");
    push_decimal(&mut s, stats.credits_received as u64);
    push_str(&mut s, " credits");
    s
}

/// The ledger never keeps more recent events than its bound: within the
/// bound before an event, within it after.
pub proof fn law_recent_events_bounded(recent: Seq<EventId>, id: EventId, max: usize)
    requires
        recent.len() <= max,
    ensures
        kept_events(recent, id, max).len() <= max,
        max > 0 ==> kept_events(recent, id, max).last() == id,
{
}

/// Converts between episodes and graph-node feature vectors.
#[derive(Debug, Clone, Copy)]
pub struct StreamGraphAdapter {
    /// Feature dimension for graph nodes
    feature_dim: usize,
}

impl StreamGraphAdapter {
    /// The feature dimension this adapter produces.
    pub closed spec fn spec_feature_dim(&self) -> usize {
        self.feature_dim
    }

    /// Create a new adapter.
    pub fn new(feature_dim: usize) -> (a: Self)
        ensures
            a.spec_feature_dim() == feature_dim,
    {
        StreamGraphAdapter { feature_dim }
    }

    /// The feature dimension.
    pub fn feature_dim(&self) -> (d: usize)
        ensures
            d == self.spec_feature_dim(),
    {
        self.feature_dim
    }

    /// The feature slot of each character of a text: its code point plus
    /// its position, modulo the dimension.
    pub fn content_slots(&self, content: &str) -> (r: Vec<usize>)
        requires
            self.spec_feature_dim() > 0,
            content@.len() + 0x11_0000 <= usize::MAX,
        ensures
            r@.len() == content@.len(),
            forall|i: int|
                0 <= i < r@.len() ==> #[trigger] r@[i] == char_slot(
                    content@[i],
                    i,
                    self.spec_feature_dim(),
                ),
    {
        let chars = str_chars(content);
        let mut r: Vec<usize> = Vec::new();
        let mut i: usize = 0;
        while i < chars.len()
            invariant
                chars@ == content@,
                self.feature_dim > 0,
                content@.len() + 0x11_0000 <= usize::MAX,
                i <= chars@.len(),
                r@.len() == i,
                forall|k: int| 0 <= k < i ==> #[trigger] r@[k] == char_slot(content@[k], k, self.feature_dim),
            decreases chars@.len() - i,
        {
            let code = chars[i] as u32;
            proof {
                vstd::utf8::char_is_scalar(chars@[i as int]);
            }
            r.push((code as usize + i) % self.feature_dim);
            i = i + 1;
        }
        r
    }
}

/// The feature slot of a character at a position: its code point plus the
/// position, modulo the dimension.
pub open spec fn char_slot(c: char, i: int, dim: usize) -> int {
    (c as u32 + i) % (dim as int)
}

/// The feature slot that marks an episode's type.
pub open spec fn episode_type_slot(t: EpisodeType) -> usize {
    match t {
        EpisodeType::Interaction => 1,
        EpisodeType::ToolExecution => 2,
        EpisodeType::LLMResponse => 3,
        EpisodeType::Observation => 4,
        EpisodeType::Decision => 5,
        EpisodeType::Error => 6,
        EpisodeType::Learning => 7,
        EpisodeType::Custom(_) => 8,
    }
}

/// The feature slot that marks an episode's type.
pub fn type_slot(t: &EpisodeType) -> (i: usize)
    ensures
        i == episode_type_slot(*t),
{
    match t {
        EpisodeType::Interaction => 1,
        EpisodeType::ToolExecution => 2,
        EpisodeType::LLMResponse => 3,
        EpisodeType::Observation => 4,
        EpisodeType::Decision => 5,
        EpisodeType::Error => 6,
        EpisodeType::Learning => 7,
        EpisodeType::Custom(_) => 8,
    }
}

} // verus!
