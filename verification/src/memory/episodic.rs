//! Episodic memory: discrete event traces, and an in-memory store that
//! keeps at most its capacity of them, evicting the oldest first, and
//! answers queries by time, type, run, recency and access count.
//!
//! Times are nanoseconds since the Unix epoch. An episode's importance is
//! kept as the bits of its `f32` value; for the non-negative importances
//! the library deals in, the bits order as the values do.

use vstd::prelude::*;
use crate::clock::unix_nanos;
use crate::keyed::{str_equal, KeyedMap};
use crate::providers::types::{clone_string_map, string_map_view};
use crate::text::{clone_opt, opt_view, push_str};
use super::ids::{EventId, MemoryError};
use super::semantic::{clamp_unit, clamp_unit_bits};

verus! {

broadcast use vstd::seq_lib::group_seq_properties;

/// Types of episodes.
#[derive(Debug, Clone, PartialEq, Eq, Hash)]
pub enum EpisodeType {
    /// User interaction
    Interaction,
    /// Tool execution
    ToolExecution,
    /// LLM response
    LLMResponse,
    /// Observation/perception
    Observation,
    /// Decision made
    Decision,
    /// Error/failure
    Error,
    /// Learning event
    Learning,
    /// Custom type
    Custom(String),
}

/// Whether two episode types are the same (custom types by their name).
pub open spec fn same_type(a: EpisodeType, b: EpisodeType) -> bool {
    match (a, b) {
        (EpisodeType::Custom(x), EpisodeType::Custom(y)) => x@ == y@,
        (EpisodeType::Custom(_), _) => false,
        (_, EpisodeType::Custom(_)) => false,
        _ => a == b,
    }
}

impl EpisodeType {
    /// Whether two episode types are the same.
    pub fn same_as(&self, other: &EpisodeType) -> (b: bool)
        ensures
            b == same_type(*self, *other),
    {
        match (self, other) {
            (EpisodeType::Interaction, EpisodeType::Interaction) => true,
            (EpisodeType::ToolExecution, EpisodeType::ToolExecution) => true,
            (EpisodeType::LLMResponse, EpisodeType::LLMResponse) => true,
            (EpisodeType::Observation, EpisodeType::Observation) => true,
            (EpisodeType::Decision, EpisodeType::Decision) => true,
            (EpisodeType::Error, EpisodeType::Error) => true,
            (EpisodeType::Learning, EpisodeType::Learning) => true,
            (EpisodeType::Custom(x), EpisodeType::Custom(y)) => str_equal(x.as_str(), y.as_str()),
            _ => false,
        }
    }

    /// A copy of this type.
    pub fn duplicate(&self) -> (r: EpisodeType)
        ensures
            r == *self,
    {
        match self {
            EpisodeType::Interaction => EpisodeType::Interaction,
            EpisodeType::ToolExecution => EpisodeType::ToolExecution,
            EpisodeType::LLMResponse => EpisodeType::LLMResponse,
            EpisodeType::Observation => EpisodeType::Observation,
            EpisodeType::Decision => EpisodeType::Decision,
            EpisodeType::Error => EpisodeType::Error,
            EpisodeType::Learning => EpisodeType::Learning,
            EpisodeType::Custom(x) => EpisodeType::Custom(x.clone()),
        }
    }
}

/// The bits of the `f32` importance 0.5 given to new episodes.
pub const DEFAULT_IMPORTANCE_BITS: u32 = 0x3F00_0000;

/// The abstract content of an episode.
pub struct EpisodeModel {
    pub id: Seq<char>,
    pub content: Seq<char>,
    pub episode_type: EpisodeType,
    pub timestamp_nanos: i64,
    pub run_id: Option<Seq<char>>,
    pub source: Seq<char>,
    pub importance_bits: u32,
    pub access_count: u32,
    pub last_accessed_nanos: i64,
    pub metadata: Map<Seq<char>, Seq<char>>,
}

/// An episode: a discrete memory unit (event trace).
#[derive(Debug)]
pub struct Episode {
    /// Unique identifier
    pub id: EventId,
    /// Main content of the episode
    pub content: String,
    /// Episode type/category
    pub episode_type: EpisodeType,
    /// When this episode occurred (nanoseconds since the Unix epoch)
    pub timestamp_nanos: i64,
    /// Associated run ID (if from agent execution)
    pub run_id: Option<String>,
    /// Source of the episode
    pub source: String,
    /// Importance score (0.0 - 1.0), as the bits of its `f32` value
    pub importance_bits: u32,
    /// Access count for frequency-based retrieval
    pub access_count: u32,
    /// Last accessed time (nanoseconds since the Unix epoch)
    pub last_accessed_nanos: i64,
    /// Additional metadata
    pub metadata: KeyedMap<String>,
}

impl View for Episode {
    type V = EpisodeModel;

    open spec fn view(&self) -> EpisodeModel {
        EpisodeModel {
            id: self.id.0@,
            content: self.content@,
            episode_type: self.episode_type,
            timestamp_nanos: self.timestamp_nanos,
            run_id: opt_view(self.run_id),
            source: self.source@,
            importance_bits: self.importance_bits,
            access_count: self.access_count,
            last_accessed_nanos: self.last_accessed_nanos,
            metadata: string_map_view(self.metadata.view()),
        }
    }
}

/// A clock reading in nanoseconds, zero when it cannot be read.
pub open spec fn nanos_value(n: Option<i64>) -> i64 {
    match n {
        Some(v) => v,
        None => 0,
    }
}

/// The current time in nanoseconds since the Unix epoch (zero when the
/// clock cannot be read).
pub fn now_nanos() -> (t: i64)
    ensures
        exists|n: Option<i64>| t == nanos_value(n),
{
    let n = unix_nanos();
    let t = match n {
        Some(v) => v,
        None => 0,
    };
    assert(t == nanos_value(n));
    t
}

/// Whole seconds from `from` to `to`, truncated toward zero.
pub open spec fn seconds_between(from: i64, to: i64) -> int {
    let d = to - from;
    if d >= 0 {
        d / 1_000_000_000
    } else {
        -((-d) / 1_000_000_000)
    }
}

/// The text of a tool-execution episode.
pub open spec fn tool_episode_text(tool: Seq<char>, input: Seq<char>, output: Seq<char>) -> Seq<char> {
    "Tool: "@ + tool + "\nInput: "@ + input + "\nOutput: "@ + output
}

impl Episode {
    /// Metadata keys are unique.
    pub open spec fn wf(&self) -> bool {
        self.metadata.wf()
    }

    /// Create an episode with a fresh id, stamped now, importance 0.5, never accessed.
    pub fn new(content: &str, episode_type: EpisodeType, source: &str) -> (e: Self)
        ensures
            e.wf(),
            e@.content == content@,
            e@.episode_type == episode_type,
            e@.run_id.is_none(),
            e@.source == source@,
            e@.importance_bits == DEFAULT_IMPORTANCE_BITS,
            e@.access_count == 0,
            e@.last_accessed_nanos == e@.timestamp_nanos,
            exists|n: Option<i64>| e@.timestamp_nanos == nanos_value(n),
            e@.metadata == Map::<Seq<char>, Seq<char>>::empty(),
    {
        let now = now_nanos();
        let e = Episode {
            id: EventId::generate(),
            content: content.to_owned(),
            episode_type,
            timestamp_nanos: now,
            run_id: None,
            source: source.to_owned(),
            importance_bits: DEFAULT_IMPORTANCE_BITS,
            access_count: 0,
            last_accessed_nanos: now,
            metadata: KeyedMap::new(),
        };
        assert(e@.metadata =~= Map::empty());
        e
    }

    /// Create an interaction episode.
    pub fn interaction(content: &str, source: &str) -> (e: Self)
        ensures
            e.wf(),
            e@.content == content@,
            e@.episode_type == EpisodeType::Interaction,
            e@.source == source@,
            e@.access_count == 0,
            e@.run_id.is_none(),
            e@.metadata == Map::<Seq<char>, Seq<char>>::empty(),
    {
        Self::new(content, EpisodeType::Interaction, source)
    }

    /// Create a tool execution episode: the tool, its input and its output
    /// in the content, the tool as source and under the `tool_name` metadata key.
    pub fn tool_execution(tool_name: &str, input: &str, output: &str) -> (e: Self)
        ensures
            e.wf(),
            e@.content == tool_episode_text(tool_name@, input@, output@),
            e@.episode_type == EpisodeType::ToolExecution,
            e@.source == tool_name@,
            e@.access_count == 0,
            e@.run_id.is_none(),
            e@.metadata == Map::<Seq<char>, Seq<char>>::empty().insert("tool_name"@, tool_name@),
    {
        let mut content = String::new();
        push_str(&mut content, "Tool: ");
        push_str(&mut content, tool_name);
        push_str(&mut content, "\nInput: ");
        push_str(&mut content, input);
        push_str(&mut content, "\nOutput: ");
        push_str(&mut content, output);
        assert(content@ =~= tool_episode_text(tool_name@, input@, output@));
        let e = Self::new(content.as_str(), EpisodeType::ToolExecution, tool_name);
        let r = e.with_metadata("tool_name", tool_name);
        assert(r@.metadata =~= Map::<Seq<char>, Seq<char>>::empty().insert("tool_name"@, tool_name@));
        r
    }

    /// Create an observation episode.
    pub fn observation(content: &str, source: &str) -> (e: Self)
        ensures
            e.wf(),
            e@.content == content@,
            e@.episode_type == EpisodeType::Observation,
            e@.source == source@,
            e@.access_count == 0,
            e@.run_id.is_none(),
            e@.metadata == Map::<Seq<char>, Seq<char>>::empty(),
    {
        Self::new(content, EpisodeType::Observation, source)
    }

    /// Create a decision episode, made by the agent, with its reason under
    /// the `reason` metadata key.
    pub fn decision(content: &str, reason: &str) -> (e: Self)
        ensures
            e.wf(),
            e@.content == content@,
            e@.episode_type == EpisodeType::Decision,
            e@.source == "agent"@,
            e@.access_count == 0,
            e@.run_id.is_none(),
            e@.metadata == Map::<Seq<char>, Seq<char>>::empty().insert("reason"@, reason@),
    {
        let e = Self::new(content, EpisodeType::Decision, "agent");
        let r = e.with_metadata("reason", reason);
        assert(r@.metadata =~= Map::<Seq<char>, Seq<char>>::empty().insert("reason"@, reason@));
        r
    }

    /// Create a learning episode.
    pub fn learning(content: &str, source: &str) -> (e: Self)
        ensures
            e.wf(),
            e@.content == content@,
            e@.episode_type == EpisodeType::Learning,
            e@.source == source@,
            e@.access_count == 0,
            e@.run_id.is_none(),
            e@.metadata == Map::<Seq<char>, Seq<char>>::empty(),
    {
        Self::new(content, EpisodeType::Learning, source)
    }

    /// Set the importance, clamped to [0.0, 1.0].
    pub fn with_importance(self, importance_bits: u32) -> (e: Self)
        ensures
            e.wf() == self.wf(),
            e@ == (EpisodeModel { importance_bits: clamp_unit(importance_bits), ..self@ }),
    {
        let mut e = self;
        e.importance_bits = clamp_unit_bits(importance_bits);
        e
    }

    /// Set the run ID.
    pub fn with_run_id(self, run_id: &str) -> (e: Self)
        ensures
            e.wf() == self.wf(),
            e@ == (EpisodeModel { run_id: Some(run_id@), ..self@ }),
    {
        let mut e = self;
        e.run_id = Some(run_id.to_owned());
        e
    }

    /// Add metadata (replacing any value under the same key).
    pub fn with_metadata(self, key: &str, value: &str) -> (e: Self)
        requires
            self.wf(),
        ensures
            e.wf(),
            e@ == (EpisodeModel { metadata: self@.metadata.insert(key@, value@), ..self@ }),
    {
        let mut e = self;
        e.metadata.insert(key.to_owned(), value.to_owned());
        assert(e@.metadata =~= self@.metadata.insert(key@, value@));
        e
    }

    /// Mark as accessed: one more access, last accessed now.
    pub fn mark_accessed(&mut self)
        requires
            old(self).access_count < u32::MAX,
        ensures
            final(self).wf() == old(self).wf(),
            final(self)@.access_count == old(self)@.access_count + 1,
            exists|n: Option<i64>| final(self)@.last_accessed_nanos == nanos_value(n),
            final(self)@ == (EpisodeModel {
                access_count: final(self)@.access_count,
                last_accessed_nanos: final(self)@.last_accessed_nanos,
                ..old(self)@
            }),
    {
        self.access_count = self.access_count + 1;
        self.last_accessed_nanos = now_nanos();
    }

    /// Whole seconds since the episode occurred.
    pub fn age_seconds(&self) -> (s: i64)
        ensures
            exists|n: Option<i64>| s == seconds_between(self.timestamp_nanos, nanos_value(n)),
    {
        let now = now_nanos();
        let d: i128 = now as i128 - self.timestamp_nanos as i128;
        if d >= 0 {
            (d / 1_000_000_000) as i64
        } else {
            -(((-d) / 1_000_000_000) as i64)
        }
    }

    /// A copy of this episode.
    pub fn duplicate(&self) -> (r: Self)
        requires
            self.wf(),
        ensures
            r.wf(),
            r@ == self@,
    {
        Episode {
            id: EventId(self.id.0.clone()),
            content: self.content.clone(),
            episode_type: self.episode_type.duplicate(),
            timestamp_nanos: self.timestamp_nanos,
            run_id: clone_opt(&self.run_id),
            source: self.source.clone(),
            importance_bits: self.importance_bits,
            access_count: self.access_count,
            last_accessed_nanos: self.last_accessed_nanos,
            metadata: clone_string_map(&self.metadata),
        }
    }
}

// =============================================================================
// RESULT ORDERS AND FILTERS
// =============================================================================

/// The order of a query's results.
#[derive(Debug, Clone, Copy, PartialEq, Eq, Structural)]
pub enum EpisodeOrder {
    /// Earliest timestamp first
    OldestFirst,
    /// Latest timestamp first
    NewestFirst,
    /// Highest access count first
    MostAccessedFirst,
}

/// The rank of an episode in an order: results go by increasing rank.
pub open spec fn rank(m: EpisodeModel, o: EpisodeOrder) -> int {
    match o {
        EpisodeOrder::OldestFirst => m.timestamp_nanos as int,
        EpisodeOrder::NewestFirst => -(m.timestamp_nanos as int),
        EpisodeOrder::MostAccessedFirst => -(m.access_count as int),
    }
}

/// The models of a sequence of episodes.
pub open spec fn models(v: Seq<Episode>) -> Seq<EpisodeModel> {
    v.map_values(|e: Episode| e@)
}

/// Episodes appear by non-decreasing rank.
pub open spec fn ranked(v: Seq<Episode>, o: EpisodeOrder) -> bool {
    forall|i: int, j: int| 0 <= i <= j < v.len() ==> rank(#[trigger] v[i]@, o) <= rank(#[trigger] v[j]@, o)
}

/// Which episodes a query selects.
#[derive(Debug)]
pub enum EpisodeFilter {
    /// Every episode
    All,
    /// Episodes whose timestamp lies in the range (both ends included)
    Between(i64, i64),
    /// Episodes of a type
    OfType(EpisodeType),
    /// Episodes of a run
    OfRun(String),
}

/// Whether an episode passes a filter.
pub open spec fn passes(f: EpisodeFilter, m: EpisodeModel) -> bool {
    match f {
        EpisodeFilter::All => true,
        EpisodeFilter::Between(start, end) => start <= m.timestamp_nanos && m.timestamp_nanos <= end,
        EpisodeFilter::OfType(t) => same_type(m.episode_type, t),
        EpisodeFilter::OfRun(r) => m.run_id == Some(r@),
    }
}

fn passes_exec(f: &EpisodeFilter, e: &Episode) -> (b: bool)
    ensures
        b == passes(*f, e@),
{
    match f {
        EpisodeFilter::All => true,
        EpisodeFilter::Between(start, end) => *start <= e.timestamp_nanos && e.timestamp_nanos <= *end,
        EpisodeFilter::OfType(t) => e.episode_type.same_as(t),
        EpisodeFilter::OfRun(r) => match &e.run_id {
            Some(x) => str_equal(x.as_str(), r.as_str()),
            None => false,
        },
    }
}

fn ranks_after(a: &Episode, b: &Episode, o: EpisodeOrder) -> (r: bool)
    ensures
        r == (rank(a@, o) > rank(b@, o)),
{
    match o {
        EpisodeOrder::OldestFirst => a.timestamp_nanos > b.timestamp_nanos,
        EpisodeOrder::NewestFirst => a.timestamp_nanos < b.timestamp_nanos,
        EpisodeOrder::MostAccessedFirst => a.access_count < b.access_count,
    }
}

/// Inserts an episode after every episode that does not rank after it.
fn insert_ranked(v: &mut Vec<Episode>, e: Episode, o: EpisodeOrder) -> (p: usize)
    requires
        ranked(old(v)@, o),
    ensures
        p <= old(v)@.len(),
        final(v)@ == old(v)@.insert(p as int, e),
        ranked(final(v)@, o),
{
    let mut p = v.len();
    while p > 0 && ranks_after(&v[p - 1], &e, o)
        invariant
            p <= v@.len(),
            forall|j: int| p <= j < v@.len() ==> rank(#[trigger] v@[j]@, o) > rank(e@, o),
        decreases p,
    {
        p = p - 1;
    }
    let ghost before = v@;
    v.insert(p, e);
    proof {
        assert forall|i: int, j: int| 0 <= i <= j < v@.len() implies rank(#[trigger] v@[i]@, o) <= rank(
            #[trigger] v@[j]@,
            o,
        ) by {
            let oi = if i < p { i } else { i - 1 };
            let oj = if j < p { j } else { j - 1 };
            if i != p as int && j != p as int {
                assert(v@[i] == before[oi]);
                assert(v@[j] == before[oj]);
            } else if i == p as int && j != p as int {
                assert(v@[j] == before[oj]);
            } else if i != p as int && j == p as int {
                assert(v@[i] == before[oi]);
                assert(rank(before[p - 1]@, o) <= rank(e@, o));
            }
        }
    }
    p
}

// =============================================================================
// IN-MEMORY STORE
// =============================================================================

/// The contents and insertion order left after evicting the oldest
/// episodes while the store is at or over its capacity.
pub open spec fn evicted(
    m: Map<Seq<char>, Episode>,
    order: Seq<Seq<char>>,
    max: usize,
) -> (Map<Seq<char>, Episode>, Seq<Seq<char>>)
    decreases order.len(),
{
    if m.dom().len() >= max && order.len() > 0 {
        evicted(m.remove(order[0]), order.drop_first(), max)
    } else {
        (m, order)
    }
}

/// A sequence with every occurrence of `x` left out.
pub open spec fn without(s: Seq<Seq<char>>, x: Seq<char>) -> Seq<Seq<char>>
    decreases s.len(),
{
    if s.len() == 0 {
        s
    } else if s.last() == x {
        without(s.drop_last(), x)
    } else {
        without(s.drop_last(), x).push(s.last())
    }
}

proof fn lemma_without_contains(s: Seq<Seq<char>>, x: Seq<char>, k: Seq<char>)
    ensures
        without(s, x).contains(k) <==> s.contains(k) && k != x,
    decreases s.len(),
{
    if s.len() > 0 {
        let init = s.drop_last();
        lemma_without_contains(init, x, k);
        if s.contains(k) && k != s.last() {
            let t = choose|t: int| 0 <= t < s.len() && s[t] == k;
            assert(init[t] == k);
        }
        if init.contains(k) {
            let t = choose|t: int| 0 <= t < init.len() && init[t] == k;
            assert(s[t] == k);
        }
        assert(s[s.len() - 1] == s.last());
        if s.last() != x {
            let w = without(init, x);
            assert(w.push(s.last())[w.len() as int] == s.last());
            if w.contains(k) {
                let t = choose|t: int| 0 <= t < w.len() && w[t] == k;
                assert(w.push(s.last())[t] == k);
            }
            if w.push(s.last()).contains(k) && k != s.last() {
                let t = choose|t: int| 0 <= t < w.len() + 1 && w.push(s.last())[t] == k;
                assert(w[t] == k);
            }
        }
    }
}

/// In-memory episodic store.
#[derive(Debug)]
pub struct InMemoryEpisodicStore {
    /// Episodes indexed by ID
    episodes: KeyedMap<Episode>,
    /// Maximum number of episodes to store
    max_size: usize,
    /// Order of insertion for eviction
    insertion_order: Vec<String>,
}

/// The characters of a sequence of strings.
pub open spec fn id_seq(v: Seq<String>) -> Seq<Seq<char>> {
    v.map_values(|s: String| s@)
}

/// A query result: well-formed episodes of the store that pass the filter,
/// each once, and every such episode is there.
pub open spec fn selects_all(r: Seq<Episode>, m: Map<Seq<char>, Episode>, p: spec_fn(EpisodeModel) -> bool) -> bool {
    &&& forall|i: int|
        0 <= i < r.len() ==> {
            &&& (#[trigger] r[i]).wf()
            &&& m.dom().contains(r[i]@.id)
            &&& r[i]@ == m[r[i]@.id]@
            &&& p(r[i]@)
        }
    &&& forall|i: int, j: int| 0 <= i < r.len() && 0 <= j < r.len() && i != j ==> #[trigger] r[i]@.id != #[trigger] r[j]@.id
    &&& forall|k: Seq<char>|
        m.dom().contains(k) && p(m[k]@) ==> exists|i: int| 0 <= i < r.len() && #[trigger] r[i]@.id == k
}

impl InMemoryEpisodicStore {
    /// The stored episodes, by id.
    pub closed spec fn contents(&self) -> Map<Seq<char>, Episode> {
        self.episodes.view()
    }

    /// The ids in order of recording (an id recorded twice appears twice).
    pub closed spec fn order(&self) -> Seq<Seq<char>> {
        id_seq(self.insertion_order@)
    }

    /// The capacity.
    pub closed spec fn capacity(&self) -> usize {
        self.max_size
    }

    /// Ids are unique, every episode is stored under its own id and is well
    /// formed, and every stored id is in the insertion order.
    pub closed spec fn wf(&self) -> bool {
        &&& self.episodes.wf()
        &&& forall|k: Seq<char>|
            #[trigger] self.episodes.view().dom().contains(k) ==> self.episodes.view()[k]@.id == k
                && self.episodes.view()[k].wf() && self.order().contains(k)
    }

    /// An empty store of the given capacity.
    pub fn new(max_size: usize) -> (s: Self)
        ensures
            s.wf(),
            s.contents().dom().len() == 0,
            s.contents() == Map::<Seq<char>, Episode>::empty(),
            s.order().len() == 0,
            s.capacity() == max_size,
    {
        let s = InMemoryEpisodicStore { episodes: KeyedMap::new(), max_size, insertion_order: Vec::new() };
        assert(s.order() =~= Seq::<Seq<char>>::empty());
        s
    }

    /// Evict the oldest episodes while the store is at or over capacity.
    fn evict_if_needed(&mut self)
        requires
            old(self).wf(),
        ensures
            final(self).wf(),
            (final(self).contents(), final(self).order()) == evicted(
                old(self).contents(),
                old(self).order(),
                old(self).capacity(),
            ),
            final(self).capacity() == old(self).capacity(),
    {
        while self.episodes.len() >= self.max_size && self.insertion_order.len() > 0
            invariant
                self.wf(),
                self.max_size == old(self).max_size,
                evicted(self.contents(), self.order(), self.max_size) == evicted(
                    old(self).contents(),
                    old(self).order(),
                    old(self).capacity(),
                ),
            decreases self.insertion_order@.len(),
        {
            let ghost before = self.insertion_order@;
            let oldest = self.insertion_order.remove(0);
            assert(id_seq(self.insertion_order@) =~= id_seq(before).drop_first());
            self.episodes.remove(oldest.as_str());
            assert forall|k: Seq<char>| #[trigger] self.episodes.view().dom().contains(k) implies self.order().contains(k) by {
                assert(id_seq(before).contains(k));
                let j = choose|j: int| 0 <= j < id_seq(before).len() && id_seq(before)[j] == k;
                assert(j != 0);
                assert(self.order()[j - 1] == k);
            }
        }
    }

    /// Record an episode, evicting the oldest first when at capacity. It is
    /// stamped now (timestamp and last access) and its id is returned.
    pub fn record(&mut self, episode: Episode) -> (r: Result<EventId, MemoryError>)
        requires
            old(self).wf(),
            episode.wf(),
        ensures
            final(self).wf(),
            final(self).capacity() == old(self).capacity(),
            r matches Ok(id) && id.0@ == episode@.id,
            ({
                let (m1, o1) = evicted(old(self).contents(), old(self).order(), old(self).capacity());
                &&& final(self).order() == o1.push(episode@.id)
                &&& final(self).contents() == m1.insert(episode@.id, final(self).contents()[episode@.id])
                &&& exists|n: Option<i64>|
                    final(self).contents()[episode@.id]@ == (EpisodeModel {
                        timestamp_nanos: #[trigger] nanos_value(n),
                        last_accessed_nanos: nanos_value(n),
                        ..episode@
                    })
            }),
    {
        self.evict_if_needed();
        let id = EventId(episode.id.0.clone());
        let mut episode = episode;
        let now = now_nanos();
        episode.timestamp_nanos = now;
        episode.last_accessed_nanos = now;
        let ghost stored = episode;
        let ghost before = self.insertion_order@;
        self.insertion_order.push(id.0.clone());
        assert(id_seq(self.insertion_order@) =~= id_seq(before).push(id.0@));
        self.episodes.insert(id.0.clone(), episode);
        assert(self.contents()[id.0@] == stored);
        assert forall|k: Seq<char>| #[trigger] self.episodes.view().dom().contains(k) implies self.episodes.view()[k]@.id == k
            && self.episodes.view()[k].wf() && self.order().contains(k) by {
            if k != id.0@ {
                assert(old(self).order().len() >= 0);
                let j = choose|j: int| 0 <= j < id_seq(before).len() && id_seq(before)[j] == k;
                assert(self.order()[j] == k);
            } else {
                assert(self.order()[self.order().len() - 1] == k);
            }
        }
        Ok(id)
    }

    /// The episode with the given id, or `EpisodeNotFound`.
    pub fn get(&self, id: &EventId) -> (r: Result<Episode, MemoryError>)
        requires
            self.wf(),
        ensures
            r is Ok <==> self.contents().dom().contains(id.0@),
            r matches Ok(e) ==> e.wf() && e@ == self.contents()[id.0@]@,
            r matches Err(err) ==> (err matches MemoryError::EpisodeNotFound(x) && x.0@ == id.0@),
    {
        match self.episodes.get(id.0.as_str()) {
            Some(e) => Ok(e.duplicate()),
            None => Err(MemoryError::EpisodeNotFound(EventId(id.0.clone()))),
        }
    }

    /// The episode with the given id, after counting an access to it (its
    /// access count goes up by one and it is last accessed now).
    pub fn get_and_access(&mut self, id: &EventId) -> (r: Result<Episode, MemoryError>)
        requires
            old(self).wf(),
            old(self).contents().dom().contains(id.0@) ==> old(self).contents()[id.0@].access_count
                < u32::MAX,
        ensures
            final(self).wf(),
            final(self).capacity() == old(self).capacity(),
            final(self).order() == old(self).order(),
            r is Ok <==> old(self).contents().dom().contains(id.0@),
            r matches Err(err) ==> (err matches MemoryError::EpisodeNotFound(x) && x.0@ == id.0@)
                && final(self).contents() == old(self).contents(),
            r matches Ok(e) ==> {
                &&& final(self).contents() == old(self).contents().insert(id.0@, final(self).contents()[id.0@])
                &&& final(self).contents()[id.0@]@.access_count == old(self).contents()[id.0@]@.access_count + 1
                &&& exists|n: Option<i64>| final(self).contents()[id.0@]@ == (EpisodeModel {
                    access_count: final(self).contents()[id.0@]@.access_count,
                    last_accessed_nanos: #[trigger] nanos_value(n),
                    ..old(self).contents()[id.0@]@
                })
                &&& e.wf()
                &&& e@ == final(self).contents()[id.0@]@
            },
    {
        match self.episodes.remove(id.0.as_str()) {
            Some(mut e) => {
                let ghost old_e = e;
                e.mark_accessed();
                let copy = e.duplicate();
                self.episodes.insert(id.0.clone(), e);
                assert(self.contents() =~= old(self).contents().insert(id.0@, self.contents()[id.0@]));
                assert forall|k: Seq<char>| #[trigger] self.episodes.view().dom().contains(k) implies self.episodes.view()[k]@.id == k
                    && self.episodes.view()[k].wf() && self.order().contains(k) by {
                    assert(old(self).episodes.view().dom().contains(k));
                }
                Ok(copy)
            },
            None => {
                assert(self.contents() =~= old(self).contents());
                Err(MemoryError::EpisodeNotFound(EventId(id.0.clone())))
            },
        }
    }

    /// The episodes that pass a filter, by rank in the given order (ties
    /// in storage order).
    fn select(&self, f: &EpisodeFilter, o: EpisodeOrder) -> (r: Vec<Episode>)
        requires
            self.wf(),
        ensures
            selects_all(r@, self.contents(), |x: EpisodeModel| passes(*f, x)),
            ranked(r@, o),
    {
        let n = self.episodes.entry_count();
        let mut r: Vec<Episode> = Vec::new();
        let mut i: usize = 0;
        proof {
            self.episodes.lemma_view_is_entries();
            self.episodes.lemma_wf_is_unique();
        }
        let ghost es = self.episodes.entry_seq();
        while i < n
            invariant
                self.wf(),
                es == self.episodes.entry_seq(),
                n == es.len(),
                i <= n,
                self.contents() == crate::keyed::entries_map(es),
                crate::keyed::keys_unique(es),
                ranked(r@, o),
                forall|a: int| 0 <= a < r@.len() ==> {
                    &&& (#[trigger] r@[a]).wf()
                    &&& self.contents().dom().contains(r@[a]@.id)
                    &&& r@[a]@ == self.contents()[r@[a]@.id]@
                    &&& passes(*f, r@[a]@)
                    &&& exists|j: int| 0 <= j < i && #[trigger] es[j].0@ == r@[a]@.id
                },
                forall|a: int, b: int| 0 <= a < r@.len() && 0 <= b < r@.len() && a != b ==> #[trigger] r@[a]@.id != #[trigger] r@[b]@.id,
                forall|j: int|
                    0 <= j < i && passes(*f, #[trigger] es[j].1@) ==> exists|a: int| 0 <= a < r@.len() && r@[a]@.id == es[j].0@,
            decreases n - i,
        {
            let (k, e) = self.episodes.entry_at(i);
            proof {
                crate::keyed::lemma_entries_map_value(es, i as int);
            }
            assert(self.contents()[es[i as int].0@] == es[i as int].1);
            assert(self.contents().dom().contains(es[i as int].0@));
            assert(e@.id == es[i as int].0@);
            if passes_exec(f, e) {
                let copy = e.duplicate();
                let ghost before = r@;
                let p = insert_ranked(&mut r, copy, o);
                proof {
                    assert forall|a: int| 0 <= a < r@.len() implies {
                        &&& (#[trigger] r@[a]).wf()
                        &&& self.contents().dom().contains(r@[a]@.id)
                        &&& r@[a]@ == self.contents()[r@[a]@.id]@
                        &&& passes(*f, r@[a]@)
                        &&& exists|j: int| 0 <= j < i + 1 && #[trigger] es[j].0@ == r@[a]@.id
                    } by {
                        if a < p {
                            assert(r@[a] == before[a]);
                        } else if a > p {
                            assert(r@[a] == before[a - 1]);
                        } else {
                            assert(es[i as int].0@ == r@[a]@.id);
                        }
                    }
                    assert forall|a: int, b: int| 0 <= a < r@.len() && 0 <= b < r@.len() && a != b implies #[trigger] r@[a]@.id != #[trigger] r@[b]@.id by {
                        let oa = if a < p { a } else { a - 1 };
                        let ob = if b < p { b } else { b - 1 };
                        if a != p as int && b != p as int {
                            assert(r@[a] == before[oa]);
                            assert(r@[b] == before[ob]);
                        } else if a == p as int {
                            assert(r@[b] == before[ob]);
                            let j = choose|j: int| 0 <= j < i && #[trigger] es[j].0@ == before[ob]@.id;
                            assert(es[j].0@ != es[i as int].0@);
                        } else {
                            assert(r@[a] == before[oa]);
                            let j = choose|j: int| 0 <= j < i && #[trigger] es[j].0@ == before[oa]@.id;
                            assert(es[j].0@ != es[i as int].0@);
                        }
                    }
                    assert forall|j: int|
                        0 <= j < i + 1 && passes(*f, #[trigger] es[j].1@) implies exists|a: int| 0 <= a < r@.len() && r@[a]@.id == es[j].0@ by {
                        if j < i {
                            let a0 = choose|a: int| 0 <= a < before.len() && before[a]@.id == es[j].0@;
                            if a0 < p {
                                assert(r@[a0] == before[a0]);
                            } else {
                                assert(r@[a0 + 1] == before[a0]);
                            }
                        } else {
                            assert(r@[p as int]@.id == es[j].0@);
                        }
                    }
                }
            }
            i = i + 1;
        }
        proof {
            assert forall|k: Seq<char>|
                self.contents().dom().contains(k) && passes(*f, self.contents()[k]@) implies exists|a: int| 0 <= a < r@.len() && #[trigger] r@[a]@.id == k by {
                crate::keyed::lemma_entries_map_dom(es, k);
                let j = choose|j: int| 0 <= j < es.len() && #[trigger] es[j].0@ == k;
                crate::keyed::lemma_entries_map_value(es, j);
                assert(passes(*f, es[j].1@));
            }
        }
        r
    }

    /// The first `k` episodes by rank: a selection of all episodes cut to
    /// its first `k`, so no episode left out ranks before one kept.
    fn top(&self, k: usize, o: EpisodeOrder) -> (r: Vec<Episode>)
        requires
            self.wf(),
        ensures
            r@.len() == vstd::math::min(k as int, self.contents().dom().len() as int),
            ranked(r@, o),
            forall|i: int| 0 <= i < r@.len() ==> (#[trigger] r@[i]).wf() && self.contents().dom().contains(r@[i]@.id) && r@[i]@ == self.contents()[r@[i]@.id]@,
            forall|i: int, j: int| 0 <= i < r@.len() && 0 <= j < r@.len() && i != j ==> #[trigger] r@[i]@.id != #[trigger] r@[j]@.id,
            forall|key: Seq<char>, i: int|
                self.contents().dom().contains(key) && 0 <= i < r@.len() && (forall|j: int| 0 <= j < r@.len() ==> r@[j]@.id != key)
                    ==> rank(#[trigger] r@[i]@, o) <= rank(#[trigger] self.contents()[key]@, o),
    {
        let all = self.select(&EpisodeFilter::All, o);
        proof {
            assert((|x: EpisodeModel| passes(EpisodeFilter::All, x)) =~= (|x: EpisodeModel| true));
            self.lemma_selection_len(all@);
        }
        let ghost full = all@;
        let mut r = all;
        r.truncate(k);
        proof {
            assert forall|key: Seq<char>, i: int|
                self.contents().dom().contains(key) && 0 <= i < r@.len() && (forall|j: int| 0 <= j < r@.len() ==> r@[j]@.id != key)
                    implies rank(#[trigger] r@[i]@, o) <= rank(#[trigger] self.contents()[key]@, o) by {
                let a = choose|a: int| 0 <= a < full.len() && #[trigger] full[a]@.id == key;
                if a < r@.len() {
                    assert(r@[a] == full[a]);
                }
                assert(full[i] == r@[i]);
                assert(full[a]@ == self.contents()[key]@);
            }
        }
        r
    }

    /// A selection of every episode has one entry per stored id.
    proof fn lemma_selection_len(&self, r: Seq<Episode>)
        requires
            self.wf(),
            selects_all(r, self.contents(), |x: EpisodeModel| true),
        ensures
            r.len() == self.contents().dom().len(),
    {
        let ids = r.map_values(|e: Episode| e@.id);
        assert(ids.no_duplicates()) by {
            assert forall|i: int, j: int| 0 <= i < ids.len() && 0 <= j < ids.len() && i != j implies ids[i] != ids[j] by {
                assert(r[i]@.id != r[j]@.id);
            }
        }
        assert(ids.to_set() =~= self.contents().dom()) by {
            assert forall|k: Seq<char>| ids.to_set().contains(k) <==> self.contents().dom().contains(k) by {
                if self.contents().dom().contains(k) {
                    let a = choose|a: int| 0 <= a < r.len() && #[trigger] r[a]@.id == k;
                    assert(ids[a] == k);
                }
                if ids.to_set().contains(k) {
                    let a = choose|a: int| 0 <= a < ids.len() && ids[a] == k;
                    assert(r[a]@.id == k);
                }
            }
        }
        ids.unique_seq_to_set();
    }

    /// Episodes whose timestamp lies in the range (both ends included),
    /// earliest first.
    pub fn temporal_query(&self, start_nanos: i64, end_nanos: i64) -> (r: Result<Vec<Episode>, MemoryError>)
        requires
            self.wf(),
        ensures
            r matches Ok(v) && selects_all(
                v@,
                self.contents(),
                |x: EpisodeModel| start_nanos <= x.timestamp_nanos && x.timestamp_nanos <= end_nanos,
            ) && ranked(v@, EpisodeOrder::OldestFirst),
    {
        let f = EpisodeFilter::Between(start_nanos, end_nanos);
        let v = self.select(&f, EpisodeOrder::OldestFirst);
        assert((|x: EpisodeModel| passes(f, x)) =~= (|x: EpisodeModel| start_nanos <= x.timestamp_nanos
            && x.timestamp_nanos <= end_nanos));
        Ok(v)
    }

    /// Episodes of a type, latest first.
    pub fn query_by_type(&self, episode_type: &EpisodeType) -> (r: Result<Vec<Episode>, MemoryError>)
        requires
            self.wf(),
        ensures
            r matches Ok(v) && selects_all(
                v@,
                self.contents(),
                |x: EpisodeModel| same_type(x.episode_type, *episode_type),
            ) && ranked(v@, EpisodeOrder::NewestFirst),
    {
        let f = EpisodeFilter::OfType(episode_type.duplicate());
        let v = self.select(&f, EpisodeOrder::NewestFirst);
        assert((|x: EpisodeModel| passes(f, x)) =~= (|x: EpisodeModel| same_type(x.episode_type, *episode_type)));
        Ok(v)
    }

    /// Episodes of a run, earliest first.
    pub fn query_by_run(&self, run_id: &str) -> (r: Result<Vec<Episode>, MemoryError>)
        requires
            self.wf(),
        ensures
            r matches Ok(v) && selects_all(v@, self.contents(), |x: EpisodeModel| x.run_id == Some(run_id@))
                && ranked(v@, EpisodeOrder::OldestFirst),
    {
        let f = EpisodeFilter::OfRun(run_id.to_owned());
        let v = self.select(&f, EpisodeOrder::OldestFirst);
        assert((|x: EpisodeModel| passes(f, x)) =~= (|x: EpisodeModel| x.run_id == Some(run_id@)));
        Ok(v)
    }

    /// Every episode, in storage order.
    pub fn all_episodes(&self) -> (r: Vec<Episode>)
        requires
            self.wf(),
        ensures
            selects_all(r@, self.contents(), |x: EpisodeModel| true),
    {
        let v = self.select(&EpisodeFilter::All, EpisodeOrder::OldestFirst);
        assert((|x: EpisodeModel| passes(EpisodeFilter::All, x)) =~= (|x: EpisodeModel| true));
        v
    }

    /// The `k` most recent episodes, latest first.
    pub fn recent(&self, k: usize) -> (r: Result<Vec<Episode>, MemoryError>)
        requires
            self.wf(),
        ensures
            r matches Ok(v) && {
                &&& v@.len() == vstd::math::min(k as int, self.contents().dom().len() as int)
                &&& ranked(v@, EpisodeOrder::NewestFirst)
                &&& forall|i: int| 0 <= i < v@.len() ==> (#[trigger] v@[i]).wf() && self.contents().dom().contains(v@[i]@.id) && v@[i]@ == self.contents()[v@[i]@.id]@
                &&& forall|i: int, j: int| 0 <= i < v@.len() && 0 <= j < v@.len() && i != j ==> #[trigger] v@[i]@.id != #[trigger] v@[j]@.id
                &&& forall|key: Seq<char>, i: int|
                    self.contents().dom().contains(key) && 0 <= i < v@.len() && (forall|j: int| 0 <= j < v@.len() ==> v@[j]@.id != key)
                        ==> (#[trigger] v@[i])@.timestamp_nanos >= (#[trigger] self.contents()[key])@.timestamp_nanos
            },
    {
        Ok(self.top(k, EpisodeOrder::NewestFirst))
    }

    /// The `k` most accessed episodes, most accessed first.
    pub fn most_accessed(&self, k: usize) -> (r: Result<Vec<Episode>, MemoryError>)
        requires
            self.wf(),
        ensures
            r matches Ok(v) && {
                &&& v@.len() == vstd::math::min(k as int, self.contents().dom().len() as int)
                &&& ranked(v@, EpisodeOrder::MostAccessedFirst)
                &&& forall|i: int| 0 <= i < v@.len() ==> (#[trigger] v@[i]).wf() && self.contents().dom().contains(v@[i]@.id) && v@[i]@ == self.contents()[v@[i]@.id]@
                &&& forall|i: int, j: int| 0 <= i < v@.len() && 0 <= j < v@.len() && i != j ==> #[trigger] v@[i]@.id != #[trigger] v@[j]@.id
                &&& forall|key: Seq<char>, i: int|
                    self.contents().dom().contains(key) && 0 <= i < v@.len() && (forall|j: int| 0 <= j < v@.len() ==> v@[j]@.id != key)
                        ==> (#[trigger] v@[i])@.access_count >= (#[trigger] self.contents()[key])@.access_count
            },
    {
        Ok(self.top(k, EpisodeOrder::MostAccessedFirst))
    }

    /// Replace a stored episode (found by its id); `EpisodeNotFound` when
    /// no episode has that id.
    pub fn update(&mut self, episode: Episode) -> (r: Result<(), MemoryError>)
        requires
            old(self).wf(),
            episode.wf(),
        ensures
            final(self).wf(),
            final(self).capacity() == old(self).capacity(),
            final(self).order() == old(self).order(),
            r is Ok <==> old(self).contents().dom().contains(episode@.id),
            r is Ok ==> final(self).contents() == old(self).contents().insert(episode@.id, episode),
            r matches Err(err) ==> (err matches MemoryError::EpisodeNotFound(x) && x.0@ == episode@.id)
                && final(self).contents() == old(self).contents(),
    {
        if !self.episodes.contains_key(episode.id.0.as_str()) {
            return Err(MemoryError::EpisodeNotFound(EventId(episode.id.0.clone())));
        }
        let key = episode.id.0.clone();
        let ghost e = episode;
        self.episodes.insert(key, episode);
        assert forall|k: Seq<char>| #[trigger] self.episodes.view().dom().contains(k) implies self.episodes.view()[k]@.id == k
            && self.episodes.view()[k].wf() && self.order().contains(k) by {
            assert(old(self).episodes.view().dom().contains(k));
        }
        Ok(())
    }

    /// Delete an episode, and its id from the insertion order;
    /// `EpisodeNotFound` when no episode has that id.
    pub fn delete(&mut self, id: &EventId) -> (r: Result<(), MemoryError>)
        requires
            old(self).wf(),
        ensures
            final(self).wf(),
            final(self).capacity() == old(self).capacity(),
            r is Ok <==> old(self).contents().dom().contains(id.0@),
            r is Ok ==> final(self).contents() == old(self).contents().remove(id.0@)
                && final(self).order() == without(old(self).order(), id.0@),
            r matches Err(err) ==> (err matches MemoryError::EpisodeNotFound(x) && x.0@ == id.0@)
                && final(self).contents() == old(self).contents() && final(self).order() == old(self).order(),
    {
        match self.episodes.remove(id.0.as_str()) {
            None => {
                Err(MemoryError::EpisodeNotFound(EventId(id.0.clone())))
            },
            Some(_) => {
                let mut kept: Vec<String> = Vec::new();
                let mut i: usize = 0;
                let ghost ord = self.order();
                while i < self.insertion_order.len()
                    invariant
                        i <= self.insertion_order@.len(),
                        ord == id_seq(self.insertion_order@),
                        id_seq(kept@) == without(ord.subrange(0, i as int), id.0@),
                    decreases self.insertion_order@.len() - i,
                {
                    assert(ord.subrange(0, i + 1).drop_last() =~= ord.subrange(0, i as int));
                    let x = &self.insertion_order[i];
                    if !str_equal(x.as_str(), id.0.as_str()) {
                        let ghost kb = kept@;
                        kept.push(x.clone());
                        assert(id_seq(kept@) =~= id_seq(kb).push(x@));
                    }
                    i = i + 1;
                }
                assert(ord.subrange(0, ord.len() as int) =~= ord);
                self.insertion_order = kept;
                assert forall|k: Seq<char>| #[trigger] self.episodes.view().dom().contains(k) implies self.episodes.view()[k]@.id == k
                    && self.episodes.view()[k].wf() && self.order().contains(k) by {
                    assert(old(self).episodes.view().dom().contains(k));
                    lemma_without_contains(ord, id.0@, k);
                }
                Ok(())
            },
        }
    }

    /// Number of stored episodes.
    pub fn count(&self) -> (n: usize)
        requires
            self.wf(),
        ensures
            n == self.contents().dom().len(),
    {
        self.episodes.len()
    }

    /// Remove every episode.
    pub fn clear(&mut self)
        ensures
            final(self).wf(),
            final(self).contents() == Map::<Seq<char>, Episode>::empty(),
            final(self).order().len() == 0,
            final(self).capacity() == old(self).capacity(),
    {
        self.episodes = KeyedMap::new();
        self.insertion_order = Vec::new();
        assert(self.order() =~= Seq::<Seq<char>>::empty());
    }
}

} // verus!
