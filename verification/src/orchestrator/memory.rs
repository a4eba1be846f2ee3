//! Memory manager for hierarchical message storage.
//!
//! Messages are kept in order of their sequence ids. The messages of every
//! scope live in a `MemoryStore`; a `MemoryManager` is a handle on one
//! scope and on its parent's handle. Handles on the same scope share its
//! messages: what one adds or clears, every duplicate sees, and a child
//! sees its parent's scope as it is at each moment. A child's session is
//! its parent's session merged with its own messages; consolidation merges
//! selected message types of a child back into a parent.

use vstd::prelude::*;
use crate::keyed::KeyedMap;
use crate::providers::types::{clone_string_map, string_map_view, Message, Role};
use crate::text::{clone_opt, clone_strings, opt_view, strings_view};
use super::ordered::{
    insert_ordered, keep, lemma_insert_at, lemma_insert_ordered, lemma_merge_ordered, merge_ordered,
    ordered,
};

verus! {

broadcast use vstd::seq_lib::group_seq_properties;

// =============================================================================
// MESSAGE TYPES
// =============================================================================

/// Type of message in memory.
#[derive(Debug, Clone, Copy, PartialEq, Eq, Hash, Structural)]
pub enum MessageType {
    /// System instructions
    System,
    /// User input
    User,
    /// AI assistant response
    Assistant,
    /// Tool call request
    ToolCall,
    /// Tool result
    ToolResult,
    /// Internal thought/reasoning
    Thought,
    /// Error message
    Error,
}

/// The provider role a message type is sent as.
pub open spec fn message_role(t: MessageType) -> Role {
    match t {
        MessageType::System => Role::System,
        MessageType::User => Role::User,
        MessageType::Assistant => Role::Assistant,
        MessageType::ToolCall => Role::Assistant,
        MessageType::ToolResult => Role::Tool,
        MessageType::Thought => Role::Assistant,
        MessageType::Error => Role::System,
    }
}

/// Position of a message type in declaration order.
pub open spec fn type_index(t: MessageType) -> int {
    match t {
        MessageType::System => 0,
        MessageType::User => 1,
        MessageType::Assistant => 2,
        MessageType::ToolCall => 3,
        MessageType::ToolResult => 4,
        MessageType::Thought => 5,
        MessageType::Error => 6,
    }
}

impl MessageType {
    /// Convert to provider Role.
    pub fn to_role(&self) -> (r: Role)
        ensures
            r == message_role(*self),
    {
        match self {
            MessageType::System => Role::System,
            MessageType::User => Role::User,
            MessageType::Assistant => Role::Assistant,
            MessageType::ToolCall => Role::Assistant,
            MessageType::ToolResult => Role::Tool,
            MessageType::Thought => Role::Assistant,
            MessageType::Error => Role::System,
        }
    }

    fn index(&self) -> (i: usize)
        ensures
            i == type_index(*self),
    {
        match self {
            MessageType::System => 0,
            MessageType::User => 1,
            MessageType::Assistant => 2,
            MessageType::ToolCall => 3,
            MessageType::ToolResult => 4,
            MessageType::Thought => 5,
            MessageType::Error => 6,
        }
    }
}

/// Visibility scope for retrieving history.
#[derive(Debug, Clone, Copy, PartialEq, Eq, Structural)]
pub enum HistoryVisibility {
    /// All messages in the current session
    Session,
    /// Messages from the current entry/task only
    Entry,
    /// Messages from the current analect scope only
    Analect,
    /// Messages from a specific runnable/component
    Runnable,
}

/// Memory scope levels.
#[derive(Debug, Clone, Copy, PartialEq, Eq, Hash, Structural)]
pub enum MemoryScope {
    /// Conversation-level memory (cleared between sessions)
    Conversation,
    /// Task-level memory (persists for task duration)
    Task,
    /// Persistent memory (stored in database)
    Persistent,
}

/// The sequence id denoted by a clock reading in nanoseconds: the reading
/// itself, or zero for a missing or negative reading.
spec fn sequence_of(nanos: Option<i64>) -> u64 {
    match nanos {
        Some(n) => if n >= 0 {
            n as u64
        } else {
            0
        },
        None => 0,
    }
}

/// A sequence id from one clock reading.
fn sequence_from(nanos: Option<i64>) -> (id: u64)
    ensures
        id == sequence_of(nanos),
        id <= i64::MAX,
{
    match nanos {
        Some(n) => if n >= 0 {
            n as u64
        } else {
            0
        },
        None => 0,
    }
}

/// The next sequence id: the clock in nanoseconds (zero if it cannot be
/// read). The clock is read again, a bounded number of times, until it has
/// moved past its first reading, so that ids taken one after another
/// increase as long as the clock does not go back.
fn next_sequence_id() -> (id: u64)
    ensures
        exists|n: Option<i64>| id == sequence_of(n),
        id <= i64::MAX,
{
    let first = crate::clock::unix_nanos();
    let start = sequence_from(first);
    let ghost mut reading = first;
    let mut id = start;
    let mut tries: u32 = 0;
    while id <= start && tries < 10_000
        invariant
            id == sequence_of(reading),
            id <= i64::MAX,
        decreases 10_000 - tries,
    {
        let next = crate::clock::unix_nanos();
        id = sequence_from(next);
        proof {
            reading = next;
        }
        tries = tries + 1;
    }
    id
}

// =============================================================================
// MESSAGES
// =============================================================================

/// The abstract content of a stored message.
pub struct MessageRecord {
    pub sequence_id: u64,
    pub msg_type: MessageType,
    pub content: Seq<char>,
    pub entry_name: Option<Seq<char>>,
    pub runnable_name: Option<Seq<char>>,
    pub path: Seq<Seq<char>>,
    pub timestamp: u64,
    pub tool_call_id: Option<Seq<char>>,
    pub metadata: Map<Seq<char>, Seq<char>>,
}

/// A message stored in memory.
#[derive(Debug)]
pub struct MemoryMessage {
    /// Unique sequence ID for ordering
    pub sequence_id: u64,
    /// Message type
    pub msg_type: MessageType,
    /// Message content
    pub content: String,
    /// Entry name (task/component that created this)
    pub entry_name: Option<String>,
    /// Runnable name (specific runnable that created this)
    pub runnable_name: Option<String>,
    /// Hierarchical path in the analect tree
    pub path: Vec<String>,
    /// Timestamp (millis since epoch)
    pub timestamp: u64,
    /// Optional tool call ID (for tool messages)
    pub tool_call_id: Option<String>,
    /// Additional metadata
    pub metadata: KeyedMap<String>,
}

impl View for MemoryMessage {
    type V = MessageRecord;

    open spec fn view(&self) -> MessageRecord {
        MessageRecord {
            sequence_id: self.sequence_id,
            msg_type: self.msg_type,
            content: self.content@,
            entry_name: opt_view(self.entry_name),
            runnable_name: opt_view(self.runnable_name),
            path: strings_view(self.path@),
            timestamp: self.timestamp,
            tool_call_id: opt_view(self.tool_call_id),
            metadata: string_map_view(self.metadata.view()),
        }
    }
}

/// The records of a sequence of messages.
pub open spec fn records(v: Seq<MemoryMessage>) -> Seq<MessageRecord> {
    v.map_values(|m: MemoryMessage| m@)
}

/// Every message's metadata has unique keys.
pub open spec fn all_wf(v: Seq<MemoryMessage>) -> bool {
    forall|i: int| 0 <= i < v.len() ==> (#[trigger] v[i]).wf()
}

impl MemoryMessage {
    /// Metadata keys are unique.
    pub open spec fn wf(&self) -> bool {
        self.metadata.wf()
    }

    /// Create a new message with a fresh sequence id and the current time.
    pub fn new(msg_type: MessageType, content: &str) -> (m: Self)
        ensures
            m.wf(),
            m@.msg_type == msg_type,
            m@.content == content@,
            m@.entry_name.is_none(),
            m@.runnable_name.is_none(),
            m@.path.len() == 0,
            m@.tool_call_id.is_none(),
            m@.metadata.dom().len() == 0,
    {
        let sequence_id = next_sequence_id();
        let timestamp = crate::clock::now_ms();
        let m = MemoryMessage {
            sequence_id,
            msg_type,
            content: content.to_owned(),
            entry_name: None,
            runnable_name: None,
            path: Vec::new(),
            timestamp,
            tool_call_id: None,
            metadata: KeyedMap::new(),
        };
        assert(m@.metadata =~= Map::empty());
        m
    }

    /// Create a system message.
    pub fn system(content: &str) -> (m: Self)
        ensures
            m.wf(),
            m@.msg_type == MessageType::System,
            m@.content == content@,
            m@.entry_name.is_none(),
            m@.runnable_name.is_none(),
            m@.path.len() == 0,
            m@.tool_call_id.is_none(),
            m@.metadata.dom().len() == 0,
    {
        Self::new(MessageType::System, content)
    }

    /// Create a user message.
    pub fn user(content: &str) -> (m: Self)
        ensures
            m.wf(),
            m@.msg_type == MessageType::User,
            m@.content == content@,
            m@.entry_name.is_none(),
            m@.runnable_name.is_none(),
            m@.path.len() == 0,
            m@.tool_call_id.is_none(),
            m@.metadata.dom().len() == 0,
    {
        Self::new(MessageType::User, content)
    }

    /// Create an assistant message.
    pub fn assistant(content: &str) -> (m: Self)
        ensures
            m.wf(),
            m@.msg_type == MessageType::Assistant,
            m@.content == content@,
            m@.entry_name.is_none(),
            m@.runnable_name.is_none(),
            m@.path.len() == 0,
            m@.tool_call_id.is_none(),
            m@.metadata.dom().len() == 0,
    {
        Self::new(MessageType::Assistant, content)
    }

    /// Create a thought message (internal reasoning).
    pub fn thought(content: &str) -> (m: Self)
        ensures
            m.wf(),
            m@.msg_type == MessageType::Thought,
            m@.content == content@,
            m@.entry_name.is_none(),
            m@.runnable_name.is_none(),
            m@.path.len() == 0,
            m@.tool_call_id.is_none(),
            m@.metadata.dom().len() == 0,
    {
        Self::new(MessageType::Thought, content)
    }

    /// Create a tool result message.
    pub fn tool_result(tool_call_id: &str, content: &str) -> (m: Self)
        ensures
            m.wf(),
            m@.msg_type == MessageType::ToolResult,
            m@.content == content@,
            m@.entry_name.is_none(),
            m@.runnable_name.is_none(),
            m@.path.len() == 0,
            m@.tool_call_id == Some(tool_call_id@),
            m@.metadata.dom().len() == 0,
    {
        let mut m = Self::new(MessageType::ToolResult, content);
        m.tool_call_id = Some(tool_call_id.to_owned());
        m
    }

    /// Set the entry name.
    pub fn with_entry(self, entry: &str) -> (m: Self)
        ensures
            m.wf() == self.wf(),
            m@ == (MessageRecord { entry_name: Some(entry@), ..self@ }),
    {
        let mut m = self;
        m.entry_name = Some(entry.to_owned());
        m
    }

    /// Set the runnable name.
    pub fn with_runnable(self, runnable: &str) -> (m: Self)
        ensures
            m.wf() == self.wf(),
            m@ == (MessageRecord { runnable_name: Some(runnable@), ..self@ }),
    {
        let mut m = self;
        m.runnable_name = Some(runnable.to_owned());
        m
    }

    /// Set the path.
    pub fn with_path(self, path: Vec<String>) -> (m: Self)
        ensures
            m.wf() == self.wf(),
            m@ == (MessageRecord { path: strings_view(path@), ..self@ }),
    {
        let mut m = self;
        m.path = path;
        m
    }

    /// Add metadata (replacing any value under the same key).
    pub fn with_metadata(self, key: &str, value: &str) -> (m: Self)
        requires
            self.wf(),
        ensures
            m.wf(),
            m@ == (MessageRecord { metadata: self@.metadata.insert(key@, value@), ..self@ }),
    {
        let mut m = self;
        m.metadata.insert(key.to_owned(), value.to_owned());
        assert(m@.metadata =~= self@.metadata.insert(key@, value@));
        m
    }

    /// Convert to a provider message: role from the type, same content,
    /// tool call id and metadata.
    pub fn to_provider_message(&self) -> (msg: Message)
        requires
            self.wf(),
        ensures
            is_provider_copy(msg, self@),
    {
        let mut msg = Message::new(self.msg_type.to_role(), self.content.as_str());
        msg.tool_call_id = clone_opt(&self.tool_call_id);
        msg.metadata = clone_string_map(&self.metadata);
        msg
    }

    /// A copy of this message.
    pub fn duplicate(&self) -> (m: Self)
        requires
            self.wf(),
        ensures
            m.wf(),
            m@ == self@,
    {
        let path = clone_strings(&self.path);
        let m = MemoryMessage {
            sequence_id: self.sequence_id,
            msg_type: self.msg_type,
            content: self.content.clone(),
            entry_name: clone_opt(&self.entry_name),
            runnable_name: clone_opt(&self.runnable_name),
            path,
            timestamp: self.timestamp,
            tool_call_id: clone_opt(&self.tool_call_id),
            metadata: clone_string_map(&self.metadata),
        };
        assert(m@.path == self@.path);
        m
    }
}

/// `msg` is the provider form of `r`.
pub open spec fn is_provider_copy(msg: Message, r: MessageRecord) -> bool {
    &&& msg.wf()
    &&& msg.role == message_role(r.msg_type)
    &&& msg.content@ == r.content
    &&& msg.name.is_none()
    &&& opt_view(msg.tool_call_id) == r.tool_call_id
    &&& msg.tool_calls.is_none()
    &&& msg.metadata_view() == r.metadata
}

// =============================================================================
// CONFIG AND STATISTICS
// =============================================================================

/// Configuration for memory manager.
#[derive(Debug)]
pub struct MemoryConfig {
    /// Maximum messages to retain (0 = unlimited)
    pub max_messages: usize,
    /// Maximum tokens to retain (0 = unlimited)
    pub max_tokens: usize,
    /// Whether to enable summarization
    pub enable_summarization: bool,
    /// Message types to include when consolidating child memories
    pub child_included_types: Vec<MessageType>,
    /// Path to a database for persistent storage (None = in-memory only)
    pub db_path: Option<String>,
}

/// The abstract configuration.
pub struct ConfigModel {
    pub max_messages: usize,
    pub max_tokens: usize,
    pub enable_summarization: bool,
    pub child_included_types: Seq<MessageType>,
    pub db_path: Option<Seq<char>>,
}

impl View for MemoryConfig {
    type V = ConfigModel;

    open spec fn view(&self) -> ConfigModel {
        ConfigModel {
            max_messages: self.max_messages,
            max_tokens: self.max_tokens,
            enable_summarization: self.enable_summarization,
            child_included_types: self.child_included_types@,
            db_path: opt_view(self.db_path),
        }
    }
}

impl MemoryConfig {
    /// A copy of this configuration.
    pub fn duplicate(&self) -> (c: Self)
        ensures
            c@ == self@,
    {
        let mut types: Vec<MessageType> = Vec::new();
        let mut i: usize = 0;
        while i < self.child_included_types.len()
            invariant
                i <= self.child_included_types@.len(),
                types@ == self.child_included_types@.subrange(0, i as int),
            decreases self.child_included_types@.len() - i,
        {
            types.push(self.child_included_types[i]);
            i = i + 1;
            assert(types@ =~= self.child_included_types@.subrange(0, i as int));
        }
        assert(types@ =~= self.child_included_types@);
        MemoryConfig {
            max_messages: self.max_messages,
            max_tokens: self.max_tokens,
            enable_summarization: self.enable_summarization,
            child_included_types: types,
            db_path: clone_opt(&self.db_path),
        }
    }
}

impl Default for MemoryConfig {
    fn default() -> (c: Self)
        ensures
            c.max_messages == 1000,
            c.max_tokens == 100_000,
            c.enable_summarization,
            c.child_included_types@ == seq![
                MessageType::System,
                MessageType::User,
                MessageType::Assistant,
            ],
            c.db_path.is_none(),
    {
        let types = vec![MessageType::System, MessageType::User, MessageType::Assistant];
        MemoryConfig {
            max_messages: 1000,
            max_tokens: 100_000,
            enable_summarization: true,
            child_included_types: types,
            db_path: None,
        }
    }
}

/// Number of records of a type.
pub open spec fn count_of_type(s: Seq<MessageRecord>, t: MessageType) -> nat
    decreases s.len(),
{
    if s.len() == 0 {
        0
    } else {
        count_of_type(s.drop_last(), t) + if s.last().msg_type == t {
            1nat
        } else {
            0nat
        }
    }
}

/// Message counts per type; a type that never occurred has no entry.
#[derive(Debug)]
pub struct TypeCounts {
    counts: Vec<usize>,
}

impl TypeCounts {
    /// The count recorded for a type.
    pub closed spec fn count(&self, t: MessageType) -> nat {
        self.counts@[type_index(t)] as nat
    }

    /// One counter per message type.
    pub closed spec fn wf(&self) -> bool {
        self.counts@.len() == 7
    }

    /// The count of a type, or `None` if no message of that type was seen.
    pub fn get(&self, t: &MessageType) -> (r: Option<&usize>)
        requires
            self.wf(),
        ensures
            match r {
                Some(c) => *c == self.count(*t) && *c > 0,
                None => self.count(*t) == 0,
            },
    {
        let i = t.index();
        if self.counts[i] > 0 {
            Some(&self.counts[i])
        } else {
            None
        }
    }
}

/// Statistics about memory usage.
#[derive(Debug)]
pub struct MemoryStats {
    /// Total messages in storage
    pub total_messages: usize,
    /// Messages by type
    pub by_type: TypeCounts,
    /// Estimated token count
    pub estimated_tokens: usize,
    /// Number of unique entries
    pub unique_entries: usize,
    /// Memory depth (nesting level)
    pub depth: usize,
}

/// Rough token estimate of one record: a quarter of its content's UTF-8 bytes.
pub open spec fn record_tokens(r: MessageRecord) -> nat {
    (utf8_len(r.content) / 4) as nat
}

/// The byte length of the UTF-8 encoding of some characters, as `str::len` gives it.
pub open spec fn utf8_len(c: Seq<char>) -> usize {
    vstd::utf8::encode_utf8(c).len() as usize
}

/// Sum of the token estimates of the records.
pub open spec fn token_estimate(s: Seq<MessageRecord>) -> nat
    decreases s.len(),
{
    if s.len() == 0 {
        0
    } else {
        token_estimate(s.drop_last()) + record_tokens(s.last())
    }
}

/// The entry names that occur in the records.
pub open spec fn entry_names(s: Seq<MessageRecord>) -> Set<Seq<char>> {
    Set::new(|e: Seq<char>| exists|i: int| 0 <= i < s.len() && #[trigger] s[i].entry_name == Some(e))
}

// =============================================================================
// MEMORY MANAGER
// =============================================================================

/// The abstract state of a memory manager: its own messages, its parent's
/// state, its scope names and its configuration.
pub struct ManagerModel {
    pub own: Seq<MessageRecord>,
    pub parent: Option<Box<ManagerModel>>,
    pub entry_name: Option<Seq<char>>,
    pub runnable_name: Option<Seq<char>>,
    pub path: Seq<Seq<char>>,
    pub config: ConfigModel,
}

impl ManagerModel {
    /// All messages visible in the session: the parent's session merged with
    /// this scope's own messages.
    pub open spec fn session(self) -> Seq<MessageRecord>
        decreases self,
    {
        match self.parent {
            Some(p) => merge_ordered(p.session(), self.own),
            None => merge_ordered(Seq::empty(), self.own),
        }
    }

    /// Messages of an entry, from this scope and its ancestors.
    pub open spec fn entry_messages(self, e: Seq<char>) -> Seq<MessageRecord>
        decreases self,
    {
        let mine = keep(self.own, |r: MessageRecord| r.entry_name == Some(e));
        match self.parent {
            Some(p) => merge_ordered(p.entry_messages(e), mine),
            None => merge_ordered(Seq::empty(), mine),
        }
    }

    /// Messages of a runnable, from this scope and its ancestors.
    pub open spec fn runnable_messages(self, r: Seq<char>) -> Seq<MessageRecord>
        decreases self,
    {
        let mine = keep(self.own, |m: MessageRecord| m.runnable_name == Some(r));
        match self.parent {
            Some(p) => merge_ordered(p.runnable_messages(r), mine),
            None => merge_ordered(Seq::empty(), mine),
        }
    }

    /// Messages visible under a visibility scope.
    pub open spec fn visible(self, v: HistoryVisibility) -> Seq<MessageRecord> {
        match v {
            HistoryVisibility::Session => self.session(),
            HistoryVisibility::Entry => match self.entry_name {
                Some(e) => self.entry_messages(e),
                None => Seq::empty(),
            },
            HistoryVisibility::Analect => self.own,
            HistoryVisibility::Runnable => match self.runnable_name {
                Some(r) => self.runnable_messages(r),
                None => Seq::empty(),
            },
        }
    }

    /// The newest sequence id of the session: the largest of the last ids of
    /// this scope and its ancestors (zero when they hold nothing).
    pub open spec fn top_id(self) -> u64
        decreases self,
    {
        let mine: u64 = if self.own.len() == 0 {
            0
        } else {
            self.own.last().sequence_id
        };
        match self.parent {
            Some(p) => if p.top_id() > mine {
                p.top_id()
            } else {
                mine
            },
            None => mine,
        }
    }

    /// A message as stored by this scope: unset entry and runnable names
    /// and an empty path are filled in from the scope.
    pub open spec fn enrich(self, m: MessageRecord) -> MessageRecord {
        MessageRecord {
            entry_name: if m.entry_name.is_none() {
                self.entry_name
            } else {
                m.entry_name
            },
            runnable_name: if m.runnable_name.is_none() {
                self.runnable_name
            } else {
                m.runnable_name
            },
            path: if m.path.len() == 0 {
                self.path
            } else {
                m.path
            },
            ..m
        }
    }

    /// Own messages are ordered, in this scope and every ancestor.
    pub open spec fn ordered_all(self) -> bool
        decreases self,
    {
        &&& ordered(self.own)
        &&& match self.parent {
            Some(p) => p.ordered_all(),
            None => true,
        }
    }
}

/// A sequence of messages enriched by a scope.
pub open spec fn enrich_all(m: ManagerModel, s: Seq<MessageRecord>) -> Seq<MessageRecord> {
    s.map_values(|r: MessageRecord| m.enrich(r))
}

/// Whether a record's type is one of the given types.
pub open spec fn type_included(types: Seq<MessageType>, r: MessageRecord) -> bool {
    types.contains(r.msg_type)
}

/// The records whose type is one of the given types.
pub open spec fn included(types: Seq<MessageType>) -> spec_fn(MessageRecord) -> bool {
    |r: MessageRecord| type_included(types, r)
}

/// The messages of every memory scope. Managers name a scope of a store;
/// managers that name the same scope (a manager and its duplicates, or a
/// child's parent and the parent itself) share its messages.
#[derive(Debug)]
pub struct MemoryStore {
    /// The messages of each scope, in order of sequence id
    scopes: Vec<Vec<MemoryMessage>>,
}

impl View for MemoryStore {
    type V = Seq<Seq<MessageRecord>>;

    open spec fn view(&self) -> Seq<Seq<MessageRecord>> {
        self.scope_records()
    }
}

impl MemoryStore {
    /// The records of each scope.
    pub closed spec fn scope_records(&self) -> Seq<Seq<MessageRecord>> {
        self.scopes@.map_values(|v: Vec<MemoryMessage>| records(v@))
    }

    /// Every scope is in sequence order and its messages are well formed.
    pub closed spec fn wf(&self) -> bool {
        forall|i: int|
            0 <= i < self.scopes@.len() ==> ordered(records(#[trigger] self.scopes@[i]@)) && all_wf(
                self.scopes@[i]@,
            )
    }

    /// An empty store.
    pub fn new() -> (s: Self)
        ensures
            s.wf(),
            s@.len() == 0,
    {
        let s = MemoryStore { scopes: Vec::new() };
        assert(s@ =~= Seq::<Seq<MessageRecord>>::empty());
        s
    }

    /// Every scope of a well-formed store is in sequence order.
    pub proof fn lemma_scopes_ordered(&self)
        requires
            self.wf(),
        ensures
            forall|i: int| 0 <= i < self@.len() ==> ordered(#[trigger] self@[i]),
    {
        assert forall|i: int| 0 <= i < self@.len() implies ordered(#[trigger] self@[i]) by {
            assert(self@[i] == records(self.scopes@[i]@));
        }
    }

    /// Adds an empty scope and returns its number.
    fn add_scope(&mut self) -> (k: usize)
        requires
            old(self).wf(),
        ensures
            final(self).wf(),
            final(self)@ == old(self)@.push(Seq::empty()),
            k == old(self)@.len(),
    {
        let k = self.scopes.len();
        let ghost before = self.scopes@;
        let e: Vec<MemoryMessage> = Vec::new();
        assert(records(e@) =~= Seq::<MessageRecord>::empty());
        self.scopes.push(e);
        proof {
            assert(self@ =~= old(self)@.push(Seq::empty()));
            assert forall|i: int| 0 <= i < self.scopes@.len() implies ordered(
                records(#[trigger] self.scopes@[i]@),
            ) && all_wf(self.scopes@[i]@) by {
                if i < before.len() {
                    assert(self.scopes@[i] == before[i]);
                }
            }
        }
        k
    }

    /// Takes the messages of a scope out, leaving it empty.
    fn take_scope(&mut self, k: usize) -> (v: Vec<MemoryMessage>)
        requires
            old(self).wf(),
            k < old(self)@.len(),
        ensures
            records(v@) == old(self)@[k as int],
            ordered(records(v@)),
            all_wf(v@),
            final(self).wf(),
            final(self)@ == old(self)@.update(k as int, Seq::empty()),
    {
        let ghost before = self.scopes@;
        let v = self.scopes.remove(k);
        let e: Vec<MemoryMessage> = Vec::new();
        assert(records(e@) =~= Seq::<MessageRecord>::empty());
        let ghost ev = e;
        self.scopes.insert(k, e);
        proof {
            assert(v == before[k as int]);
            assert(self.scopes@ =~= before.update(k as int, ev));
            assert(self@ =~= old(self)@.update(k as int, Seq::empty()));
            assert forall|i: int| 0 <= i < self.scopes@.len() implies ordered(
                records(#[trigger] self.scopes@[i]@),
            ) && all_wf(self.scopes@[i]@) by {
                if i != k {
                    assert(self.scopes@[i] == before[i]);
                }
            }
        }
        v
    }

    /// Puts messages back as the messages of a scope.
    fn put_scope(&mut self, k: usize, v: Vec<MemoryMessage>)
        requires
            old(self).wf(),
            k < old(self)@.len(),
            ordered(records(v@)),
            all_wf(v@),
        ensures
            final(self).wf(),
            final(self)@ == old(self)@.update(k as int, records(v@)),
    {
        let ghost before = self.scopes@;
        let ghost vv = v;
        self.scopes.set(k, v);
        proof {
            assert(self@ =~= old(self)@.update(k as int, records(vv@)));
            assert forall|i: int| 0 <= i < self.scopes@.len() implies ordered(
                records(#[trigger] self.scopes@[i]@),
            ) && all_wf(self.scopes@[i]@) by {
                if i != k {
                    assert(self.scopes@[i] == before[i]);
                }
            }
        }
    }
}

/// A handle on hierarchical message memory: it names a scope of a
/// `MemoryStore` and holds its parent's handle. Duplicates of a handle name
/// the same scope, so they share its messages: clearing through one empties
/// it for all; a child sees what its parent's scope holds at every moment.
#[derive(Debug)]
pub struct MemoryManager {
    /// The scope of the store holding this manager's messages
    scope: usize,
    /// Parent memory manager (for scope inheritance)
    parent: Option<Box<MemoryManager>>,
    /// Current entry name
    entry_name: Option<String>,
    /// Current runnable name
    runnable_name: Option<String>,
    /// Hierarchical path
    path: Vec<String>,
    /// Configuration
    config: MemoryConfig,
}

impl MemoryManager {
    /// The scope this manager names.
    pub closed spec fn scope_id(&self) -> nat {
        self.scope as nat
    }

    /// The abstract state of this manager and its ancestors over the
    /// scopes of a store.
    pub closed spec fn model_in(&self, store: Seq<Seq<MessageRecord>>) -> ManagerModel
        decreases self,
    {
        ManagerModel {
            own: store[self.scope as int],
            parent: match &self.parent {
                Some(p) => Some(Box::new(p.model_in(store))),
                None => None,
            },
            entry_name: opt_view(self.entry_name),
            runnable_name: opt_view(self.runnable_name),
            path: strings_view(self.path@),
            config: self.config@,
        }
    }

    /// The scopes of this manager and its ancestors exist in a store of `n`
    /// scopes, each ancestor's scope below its child's.
    pub closed spec fn wf_in(&self, n: nat) -> bool
        decreases self,
    {
        &&& self.scope < n
        &&& match &self.parent {
            Some(p) => p.scope < self.scope && p.wf_in(n),
            None => true,
        }
    }

    /// This manager's own messages are those of its scope.
    pub proof fn lemma_own_is_scope(&self, store: Seq<Seq<MessageRecord>>)
        ensures
            self.model_in(store).own == store[self.scope_id() as int],
    {
    }

    /// A valid manager's scope is in the store.
    pub proof fn lemma_scope_in(&self, n: nat)
        requires
            self.wf_in(n),
        ensures
            self.scope_id() < n,
    {
    }

    /// A scope that grows stays valid.
    pub proof fn lemma_wf_grow(&self, n: nat, m: nat)
        requires
            self.wf_in(n),
            n <= m,
        ensures
            self.wf_in(m),
        decreases self,
    {
        match &self.parent {
            Some(p) => p.lemma_wf_grow(n, m),
            None => {},
        }
    }

    /// Changing a scope above this manager's leaves its state unchanged.
    pub proof fn lemma_frame(&self, store: Seq<Seq<MessageRecord>>, k: int, v: Seq<MessageRecord>)
        requires
            self.wf_in(store.len()),
            self.scope_id() < k < store.len(),
        ensures
            self.model_in(store.update(k, v)) == self.model_in(store),
        decreases self,
    {
        match &self.parent {
            Some(p) => p.lemma_frame(store, k, v),
            None => {},
        }
    }

    /// Adding a scope leaves this manager's state unchanged.
    pub proof fn lemma_push_frame(&self, store: Seq<Seq<MessageRecord>>, v: Seq<MessageRecord>)
        requires
            self.wf_in(store.len()),
        ensures
            self.model_in(store.push(v)) == self.model_in(store),
            self.wf_in(store.len() + 1),
        decreases self,
    {
        assert(store.push(v)[self.scope as int] == store[self.scope as int]);
        match &self.parent {
            Some(p) => p.lemma_push_frame(store, v),
            None => {},
        }
    }

    /// Changing this manager's scope changes its own messages and nothing
    /// else of its state.
    pub proof fn lemma_update_own(&self, store: Seq<Seq<MessageRecord>>, v: Seq<MessageRecord>)
        requires
            self.wf_in(store.len()),
        ensures
            self.model_in(store.update(self.scope_id() as int, v)) == (ManagerModel {
                own: v,
                ..self.model_in(store)
            }),
    {
        match &self.parent {
            Some(p) => p.lemma_frame(store, self.scope as int, v),
            None => {},
        }
    }

    /// In a well-formed store, this manager's messages and its ancestors'
    /// are in sequence order.
    pub proof fn lemma_ordered_all(&self, store: &MemoryStore)
        requires
            store.wf(),
            self.wf_in(store@.len()),
        ensures
            self.model_in(store@).ordered_all(),
        decreases self,
    {
        store.lemma_scopes_ordered();
        match &self.parent {
            Some(p) => p.lemma_ordered_all(store),
            None => {},
        }
    }

    /// Create a new root memory manager with a new, empty scope of the store.
    pub fn new(store: &mut MemoryStore, config: MemoryConfig) -> (m: Self)
        requires
            old(store).wf(),
        ensures
            final(store).wf(),
            final(store)@ == old(store)@.push(Seq::empty()),
            m.scope_id() == old(store)@.len(),
            m.wf_in(final(store)@.len()),
            m.model_in(final(store)@).own.len() == 0,
            m.model_in(final(store)@).parent.is_none(),
            m.model_in(final(store)@).entry_name.is_none(),
            m.model_in(final(store)@).runnable_name.is_none(),
            m.model_in(final(store)@).path.len() == 0,
            m.model_in(final(store)@).config == config@,
    {
        let scope = store.add_scope();
        let m = MemoryManager {
            scope,
            parent: None,
            entry_name: None,
            runnable_name: None,
            path: Vec::new(),
            config,
        };
        assert(m.model_in(store@).path =~= Seq::<Seq<char>>::empty());
        m
    }

    /// Create a new memory manager with default config.
    pub fn with_defaults(store: &mut MemoryStore) -> (m: Self)
        requires
            old(store).wf(),
        ensures
            final(store).wf(),
            final(store)@ == old(store)@.push(Seq::empty()),
            m.scope_id() == old(store)@.len(),
            m.wf_in(final(store)@.len()),
            m.model_in(final(store)@).own.len() == 0,
            m.model_in(final(store)@).parent.is_none(),
            m.model_in(final(store)@).entry_name.is_none(),
            m.model_in(final(store)@).runnable_name.is_none(),
            m.model_in(final(store)@).path.len() == 0,
            m.model_in(final(store)@).config.child_included_types == seq![
                MessageType::System,
                MessageType::User,
                MessageType::Assistant,
            ],
            m.model_in(final(store)@).config.max_messages == 1000,
            m.model_in(final(store)@).config.max_tokens == 100_000,
    {
        Self::new(store, MemoryConfig::default())
    }

    /// Another handle on the same scope, with the same parent, names and
    /// configuration: it shares this manager's messages.
    pub fn duplicate(&self) -> (m: Self)
        ensures
            m.scope_id() == self.scope_id(),
            forall|s: Seq<Seq<MessageRecord>>| #[trigger] m.model_in(s) == self.model_in(s),
            forall|n: nat| #[trigger] m.wf_in(n) == self.wf_in(n),
        decreases self,
    {
        let parent = match &self.parent {
            Some(p) => Some(Box::new(p.duplicate())),
            None => None,
        };
        let m = MemoryManager {
            scope: self.scope,
            parent,
            entry_name: clone_opt(&self.entry_name),
            runnable_name: clone_opt(&self.runnable_name),
            path: clone_strings(&self.path),
            config: self.config.duplicate(),
        };
        assert forall|s: Seq<Seq<MessageRecord>>| #[trigger] m.model_in(s) == self.model_in(s) by {
            match &self.parent {
                Some(p) => {
                    assert(m.parent.unwrap().model_in(s) == p.model_in(s));
                },
                None => {},
            }
        }
        assert forall|n: nat| #[trigger] m.wf_in(n) == self.wf_in(n) by {
            match &self.parent {
                Some(p) => {
                    assert(m.parent.unwrap().wf_in(n) == p.wf_in(n));
                },
                None => {},
            }
        }
        m
    }

    /// Create a child memory manager for a nested scope: a new, empty scope
    /// of the store, with a handle on this manager's scope as parent (so the
    /// child sees whatever that scope holds), the same entry, the given
    /// runnable, and the path extended with the runnable's name.
    pub fn child(&self, store: &mut MemoryStore, runnable_name: Option<String>) -> (c: Self)
        requires
            old(store).wf(),
            self.wf_in(old(store)@.len()),
        ensures
            final(store).wf(),
            final(store)@ == old(store)@.push(Seq::empty()),
            c.scope_id() == old(store)@.len(),
            c.wf_in(final(store)@.len()),
            self.wf_in(final(store)@.len()),
            self.model_in(final(store)@) == self.model_in(old(store)@),
            c.model_in(final(store)@).own.len() == 0,
            forall|s: Seq<Seq<MessageRecord>>| #[trigger] c.model_in(s).parent == Some(
                Box::new(self.model_in(s)),
            ),
            c.model_in(final(store)@).entry_name == self.model_in(old(store)@).entry_name,
            c.model_in(final(store)@).runnable_name == opt_view(runnable_name),
            c.model_in(final(store)@).path == match runnable_name {
                Some(n) => self.model_in(old(store)@).path.push(n@),
                None => self.model_in(old(store)@).path,
            },
            c.model_in(final(store)@).config == self.model_in(old(store)@).config,
    {
        proof {
            self.lemma_push_frame(store@, Seq::empty());
        }
        let scope = store.add_scope();
        let mut child_path = clone_strings(&self.path);
        match &runnable_name {
            Some(name) => child_path.push(name.clone()),
            None => {},
        }
        let dup = self.duplicate();
        let ghost d = dup;
        proof {
            assert(d.wf_in(store@.len()) == self.wf_in(store@.len()));
        }
        let c = MemoryManager {
            scope,
            parent: Some(Box::new(dup)),
            entry_name: clone_opt(&self.entry_name),
            runnable_name,
            path: child_path,
            config: self.config.duplicate(),
        };
        assert(c.model_in(store@).own =~= Seq::<MessageRecord>::empty());
        assert forall|s: Seq<Seq<MessageRecord>>| #[trigger] c.model_in(s).parent == Some(
            Box::new(self.model_in(s)),
        ) by {
            assert(d.model_in(s) == self.model_in(s));
        }
        assert(c.model_in(store@).path =~= match runnable_name {
            Some(n) => self.model_in(old(store)@).path.push(n@),
            None => self.model_in(old(store)@).path,
        });
        c
    }

    /// Set the entry name for this scope.
    pub fn with_entry(self, entry: &str) -> (m: Self)
        ensures
            m.scope_id() == self.scope_id(),
            forall|s: Seq<Seq<MessageRecord>>| #[trigger] m.model_in(s) == (ManagerModel {
                entry_name: Some(entry@),
                ..self.model_in(s)
            }),
            forall|n: nat| #[trigger] m.wf_in(n) == self.wf_in(n),
    {
        let ghost old_self = self;
        let mut m = self;
        m.entry_name = Some(entry.to_owned());
        assert forall|s: Seq<Seq<MessageRecord>>| #[trigger] m.model_in(s) == (ManagerModel {
            entry_name: Some(entry@),
            ..old_self.model_in(s)
        }) by {}
        assert forall|n: nat| #[trigger] m.wf_in(n) == old_self.wf_in(n) by {}
        m
    }

    /// Fills in unset scope fields of a message from this scope.
    fn enrich(&self, message: MemoryMessage, Ghost(store): Ghost<Seq<Seq<MessageRecord>>>) -> (m: MemoryMessage)
        requires
            message.wf(),
        ensures
            m.wf(),
            m@ == self.model_in(store).enrich(message@),
    {
        let mut message = message;
        if message.entry_name.is_none() {
            message.entry_name = clone_opt(&self.entry_name);
        }
        if message.runnable_name.is_none() {
            message.runnable_name = clone_opt(&self.runnable_name);
        }
        if message.path.len() == 0 {
            message.path = clone_strings(&self.path);
        }
        message
    }

    /// Add a message to memory: unset entry, runnable and path are taken
    /// from this scope, and the message is placed in this scope's messages
    /// in sequence order, after every message whose id does not exceed its
    /// own. Every handle on this scope sees it.
    pub fn add_message(&self, store: &mut MemoryStore, message: MemoryMessage)
        requires
            old(store).wf(),
            self.wf_in(old(store)@.len()),
            message.wf(),
        ensures
            final(store).wf(),
            final(store)@.len() == old(store)@.len(),
            final(store)@ == old(store)@.update(
                self.scope_id() as int,
                insert_ordered(
                    old(store)@[self.scope_id() as int],
                    self.model_in(old(store)@).enrich(message@),
                ),
            ),
            self.model_in(final(store)@) == (ManagerModel {
                own: insert_ordered(
                    self.model_in(old(store)@).own,
                    self.model_in(old(store)@).enrich(message@),
                ),
                ..self.model_in(old(store)@)
            }),
            message@.sequence_id >= self.model_in(old(store)@).top_id() ==> self.model_in(
                final(store)@,
            ).session() == self.model_in(old(store)@).session().push(
                self.model_in(old(store)@).enrich(message@),
            ),
    {
        proof {
            self.lemma_ordered_all(store);
            super::memory_laws::law_add_then_visible(self.model_in(store@), message@);
            self.lemma_update_own(
                store@,
                insert_ordered(store@[self.scope as int], self.model_in(store@).enrich(message@)),
            );
            lemma_insert_ordered(store@[self.scope as int], self.model_in(store@).enrich(message@));
        }
        let m = self.enrich(message, Ghost(store@));
        let mut own = store.take_scope(self.scope);
        insert_message_into(&mut own, m);
        store.put_scope(self.scope, own);
    }

    /// Add multiple messages to memory, enriched from this scope, keeping
    /// sequence order (earlier messages first among equal ids).
    pub fn add_messages(&self, store: &mut MemoryStore, messages: Vec<MemoryMessage>)
        requires
            old(store).wf(),
            self.wf_in(old(store)@.len()),
            all_wf(messages@),
        ensures
            final(store).wf(),
            final(store)@.len() == old(store)@.len(),
            final(store)@ == old(store)@.update(
                self.scope_id() as int,
                merge_ordered(
                    old(store)@[self.scope_id() as int],
                    enrich_all(self.model_in(old(store)@), records(messages@)),
                ),
            ),
            self.model_in(final(store)@) == (ManagerModel {
                own: merge_ordered(
                    self.model_in(old(store)@).own,
                    enrich_all(self.model_in(old(store)@), records(messages@)),
                ),
                ..self.model_in(old(store)@)
            }),
    {
        let ghost st = store@;
        let ghost start = self.model_in(st);
        let ghost input = records(messages@);
        let ghost total = messages@.len();
        let mut messages = messages;
        let mut enriched: Vec<MemoryMessage> = Vec::new();
        while messages.len() > 0
            invariant
                all_wf(messages@),
                all_wf(enriched@),
                enriched@.len() + messages@.len() == total,
                total == input.len(),
                records(messages@) == input.subrange(enriched@.len() as int, total as int),
                records(enriched@) == enrich_all(start, input.subrange(0, enriched@.len() as int)),
                start == self.model_in(st),
            decreases messages@.len(),
        {
            let ghost before = messages@;
            let ghost before_e = enriched@;
            let m = messages.remove(0);
            proof {
                lemma_records_index(before, 0);
                lemma_records_remove_first(before);
                assert(before[0].wf());
                assert(records(messages@) =~= input.subrange((before_e.len() + 1) as int, total as int));
                assert(input[before_e.len() as int] == m@);
            }
            let e = self.enrich(m, Ghost(st));
            enriched.push(e);
            proof {
                lemma_records_push(before_e, e);
                assert(enrich_all(start, input.subrange(0, enriched@.len() as int)) =~= enrich_all(
                    start,
                    input.subrange(0, before_e.len() as int),
                ).push(start.enrich(input[before_e.len() as int])));
            }
            assert(all_wf(messages@)) by {
                assert forall|i: int| 0 <= i < messages@.len() implies (#[trigger] messages@[i]).wf() by {
                    assert(messages@[i] == before[i + 1]);
                }
            }
            assert(all_wf(enriched@)) by {
                assert forall|i: int| 0 <= i < enriched@.len() implies (#[trigger] enriched@[i]).wf() by {
                    if i < before_e.len() {
                        assert(enriched@[i] == before_e[i]);
                    }
                }
            }
        }
        assert(input.subrange(0, total as int) =~= input);
        proof {
            self.lemma_ordered_all(store);
            lemma_merge_ordered(st[self.scope as int], records(enriched@));
            self.lemma_update_own(st, merge_ordered(st[self.scope as int], records(enriched@)));
        }
        let ghost merged = merge_ordered(st[self.scope as int], records(enriched@));
        assert(records(enriched@) == enrich_all(start, input));
        let mut own = store.take_scope(self.scope);
        merge_messages(&mut own, enriched);
        store.put_scope(self.scope, own);
        assert(store@ == st.update(self.scope as int, merged));
        assert(self.model_in(store@) == (ManagerModel { own: merged, ..start }));
    }

    /// Copies of this scope's messages that a selector accepts.
    fn copy_where(&self, store: &MemoryStore, sel: Selector) -> (r: Vec<MemoryMessage>)
        requires
            store.wf(),
            self.wf_in(store@.len()),
        ensures
            all_wf(r@),
            records(r@) == keep(self.model_in(store@).own, |m: MessageRecord| selects(sel, m)),
    {
        let v = &store.scopes[self.scope];
        proof {
            assert(store@[self.scope as int] == records(v@));
            assert(all_wf(v@));
        }
        copy_selected(v, sel)
    }

    /// Copies of all of this scope's messages.
    fn copy_all(&self, store: &MemoryStore) -> (r: Vec<MemoryMessage>)
        requires
            store.wf(),
            self.wf_in(store@.len()),
        ensures
            all_wf(r@),
            records(r@) == self.model_in(store@).own,
    {
        let r = self.copy_where(store, Selector::All);
        proof {
            lemma_keep_all(self.model_in(store@).own, |m: MessageRecord| selects(Selector::All, m));
        }
        r
    }

    /// Get messages from the current session (including parent memories).
    pub fn get_session_memory(&self, store: &MemoryStore) -> (r: Vec<MemoryMessage>)
        requires
            store.wf(),
            self.wf_in(store@.len()),
        ensures
            all_wf(r@),
            records(r@) == self.model_in(store@).session(),
        decreases self,
    {
        let mut base = match &self.parent {
            Some(p) => p.get_session_memory(store),
            None => Vec::new(),
        };
        assert(self.parent.is_none() ==> records(base@) =~= Seq::<MessageRecord>::empty());
        let own = self.copy_all(store);
        merge_messages(&mut base, own);
        base
    }

    /// Get messages from the current entry only (empty if no entry is set).
    pub fn get_entry_memory(&self, store: &MemoryStore) -> (r: Vec<MemoryMessage>)
        requires
            store.wf(),
            self.wf_in(store@.len()),
        ensures
            all_wf(r@),
            records(r@) == self.model_in(store@).visible(HistoryVisibility::Entry),
    {
        match &self.entry_name {
            Some(e) => self.collect_entry_messages(store, e.as_str()),
            None => Vec::new(),
        }
    }

    /// Get messages from the current analect scope only.
    pub fn get_analect_memory(&self, store: &MemoryStore) -> (r: Vec<MemoryMessage>)
        requires
            store.wf(),
            self.wf_in(store@.len()),
        ensures
            all_wf(r@),
            records(r@) == self.model_in(store@).own,
    {
        self.copy_all(store)
    }

    /// Get messages by visibility scope.
    pub fn get_memory(&self, store: &MemoryStore, visibility: HistoryVisibility) -> (r: Vec<MemoryMessage>)
        requires
            store.wf(),
            self.wf_in(store@.len()),
        ensures
            all_wf(r@),
            records(r@) == self.model_in(store@).visible(visibility),
    {
        match visibility {
            HistoryVisibility::Session => self.get_session_memory(store),
            HistoryVisibility::Entry => self.get_entry_memory(store),
            HistoryVisibility::Analect => self.get_analect_memory(store),
            HistoryVisibility::Runnable => match &self.runnable_name {
                Some(name) => self.collect_runnable_messages(store, name.as_str()),
                None => Vec::new(),
            },
        }
    }

    /// Get messages as provider messages, leaving out internal thoughts.
    pub fn to_provider_messages(&self, store: &MemoryStore, visibility: HistoryVisibility) -> (r: Vec<Message>)
        requires
            store.wf(),
            self.wf_in(store@.len()),
        ensures
            r@.len() == not_thoughts(self.model_in(store@).visible(visibility)).len(),
            forall|i: int|
                0 <= i < r@.len() ==> is_provider_copy(
                    #[trigger] r@[i],
                    not_thoughts(self.model_in(store@).visible(visibility))[i],
                ),
    {
        let msgs = self.get_memory(store, visibility);
        let ghost src = records(msgs@);
        let mut r: Vec<Message> = Vec::new();
        let mut i: usize = 0;
        while i < msgs.len()
            invariant
                i <= msgs@.len(),
                all_wf(msgs@),
                src == records(msgs@),
                r@.len() == not_thoughts(src.subrange(0, i as int)).len(),
                forall|k: int|
                    0 <= k < r@.len() ==> is_provider_copy(
                        #[trigger] r@[k],
                        not_thoughts(src.subrange(0, i as int))[k],
                    ),
            decreases msgs@.len() - i,
        {
            let m = &msgs[i];
            assert(src.subrange(0, i + 1).drop_last() =~= src.subrange(0, i as int));
            assert(src.subrange(0, i + 1).last() == m@);
            if m.msg_type != MessageType::Thought {
                assert(m.wf());
                r.push(m.to_provider_message());
            }
            i = i + 1;
        }
        assert(src.subrange(0, msgs@.len() as int) =~= src);
        r
    }

    /// Clear all messages in the current scope: every handle on it sees it
    /// empty; the ancestors' scopes keep their messages.
    pub fn clear(&self, store: &mut MemoryStore)
        requires
            old(store).wf(),
            self.wf_in(old(store)@.len()),
        ensures
            final(store).wf(),
            final(store)@.len() == old(store)@.len(),
            final(store)@ == old(store)@.update(self.scope_id() as int, Seq::empty()),
            self.model_in(final(store)@) == (ManagerModel {
                own: Seq::empty(),
                ..self.model_in(old(store)@)
            }),
    {
        proof {
            self.lemma_update_own(store@, Seq::empty());
        }
        let _ = store.take_scope(self.scope);
    }

    /// Whether this scope holds no messages.
    pub fn is_empty(&self, store: &MemoryStore) -> (b: bool)
        requires
            self.wf_in(store@.len()),
        ensures
            b == (self.model_in(store@).own.len() == 0),
    {
        let v = &store.scopes[self.scope];
        assert(store@[self.scope as int] == records(v@));
        v.len() == 0
    }

    /// Consolidate child memory into this memory: the child scope's messages
    /// whose type is among the configured included types are merged in.
    pub fn consolidate(&self, store: &mut MemoryStore, child: &MemoryManager)
        requires
            old(store).wf(),
            self.wf_in(old(store)@.len()),
            child.wf_in(old(store)@.len()),
        ensures
            final(store).wf(),
            final(store)@.len() == old(store)@.len(),
            final(store)@ == old(store)@.update(
                self.scope_id() as int,
                merge_ordered(
                    old(store)@[self.scope_id() as int],
                    keep(
                        child.model_in(old(store)@).own,
                        included(self.model_in(old(store)@).config.child_included_types),
                    ),
                ),
            ),
            self.model_in(final(store)@) == (ManagerModel {
                own: merge_ordered(
                    self.model_in(old(store)@).own,
                    keep(
                        child.model_in(old(store)@).own,
                        included(self.model_in(old(store)@).config.child_included_types),
                    ),
                ),
                ..self.model_in(old(store)@)
            }),
    {
        let ghost st = store@;
        let filtered = child.copy_where(store, Selector::Types(&self.config.child_included_types));
        let ghost kept = keep(child.model_in(st).own, included(self.model_in(st).config.child_included_types));
        proof {
            assert((|m: MessageRecord| selects(Selector::Types(&self.config.child_included_types), m))
                =~= included(self.model_in(st).config.child_included_types));
            self.lemma_ordered_all(store);
            lemma_merge_ordered(st[self.scope as int], kept);
            self.lemma_update_own(st, merge_ordered(st[self.scope as int], kept));
        }
        let ghost merged = merge_ordered(st[self.scope as int], kept);
        let mut own = store.take_scope(self.scope);
        merge_messages(&mut own, filtered);
        store.put_scope(self.scope, own);
        assert(store@ == st.update(self.scope as int, merged));
        assert(self.model_in(store@) == (ManagerModel { own: merged, ..self.model_in(st) }));
    }

    /// Get memory statistics over the session's messages: the count, the
    /// count per type, a token estimate (a quarter of each content's bytes),
    /// the number of distinct entry names, and the depth of this scope.
    pub fn stats(&self, store: &MemoryStore) -> (st: MemoryStats)
        requires
            store.wf(),
            self.wf_in(store@.len()),
            token_estimate(self.model_in(store@).session()) <= usize::MAX,
        ensures
            st.by_type.wf(),
            st.total_messages == self.model_in(store@).session().len(),
            forall|t: MessageType| #[trigger] st.by_type.count(t) == count_of_type(self.model_in(store@).session(), t),
            st.estimated_tokens == token_estimate(self.model_in(store@).session()),
            st.unique_entries == entry_names(self.model_in(store@).session()).len(),
            st.depth == self.model_in(store@).path.len(),
    {
        let messages = self.get_session_memory(store);
        let ghost all = records(messages@);
        let mut counts: Vec<usize> = vec![0usize; 7];
        let mut tokens: usize = 0;
        let mut names: Vec<String> = Vec::new();
        let mut i: usize = 0;
        proof {
            lemma_token_prefix(all, 0);
        }
        while i < messages.len()
            invariant
                i <= messages@.len(),
                all == records(messages@),
                all == self.model_in(store@).session(),
                token_estimate(all) <= usize::MAX,
                counts@.len() == 7,
                forall|t: MessageType| #[trigger] counts@[type_index(t)] == count_of_type(all.subrange(0, i as int), t),
                tokens == token_estimate(all.subrange(0, i as int)),
                strings_view(names@).no_duplicates(),
                strings_view(names@).to_set() == entry_names(all.subrange(0, i as int)),
            decreases messages@.len() - i,
        {
            let m = &messages[i];
            let ghost prefix = all.subrange(0, i as int);
            let ghost next = all.subrange(0, i + 1);
            proof {
                lemma_records_index(messages@, i as int);
                assert(next.drop_last() =~= prefix);
                assert(next.last() == m@);
                lemma_count_bound(next, m.msg_type);
                lemma_token_prefix(all, i + 1);
                lemma_entry_names_push(prefix, m@);
                assert(next =~= prefix.push(m@));
            }
            let k = m.msg_type.index();
            let c = counts[k];
            counts.set(k, c + 1);
            let text = m.content.as_str();
            let byte_len = text.len();
            proof {
                assert(text@ == m@.content);
                assert(byte_len == utf8_len(m@.content));
                assert(token_estimate(next) == token_estimate(prefix) + record_tokens(m@));
            }
            tokens = tokens + byte_len / 4;
            match &m.entry_name {
                Some(e) => {
                    if !contains_str(&names, e.as_str()) {
                        let ghost before = names@;
                        names.push(e.clone());
                        proof {
                            assert(strings_view(names@) =~= strings_view(before).push(e@));
                            assert(strings_view(names@).to_set() =~= strings_view(before).to_set().insert(e@));
                        }
                    } else {
                        assert(strings_view(names@).to_set().contains(e@));
                        assert(strings_view(names@).to_set() =~= strings_view(names@).to_set().insert(e@));
                    }
                },
                None => {},
            }
            i = i + 1;
        }
        assert(all.subrange(0, messages@.len() as int) =~= all);
        proof {
            strings_view(names@).unique_seq_to_set();
        }
        MemoryStats {
            total_messages: messages.len(),
            by_type: TypeCounts { counts },
            estimated_tokens: tokens,
            unique_entries: names.len(),
            depth: self.path.len(),
        }
    }

    /// The path of this scope.
    pub fn path(&self) -> (p: &Vec<String>)
        ensures
            forall|s: Seq<Seq<MessageRecord>>| strings_view(p@) == #[trigger] self.model_in(s).path,
    {
        &self.path
    }

    /// The entry name of this scope.
    pub fn entry_name(&self) -> (e: &Option<String>)
        ensures
            forall|s: Seq<Seq<MessageRecord>>| opt_view(*e) == #[trigger] self.model_in(s).entry_name,
    {
        &self.entry_name
    }

    /// The runnable name of this scope.
    pub fn runnable_name(&self) -> (r: &Option<String>)
        ensures
            forall|s: Seq<Seq<MessageRecord>>| opt_view(*r) == #[trigger] self.model_in(s).runnable_name,
    {
        &self.runnable_name
    }

    /// Whether this scope has a parent.
    pub fn has_parent(&self) -> (b: bool)
        ensures
            forall|s: Seq<Seq<MessageRecord>>| b == (#[trigger] self.model_in(s)).parent.is_some(),
    {
        self.parent.is_some()
    }

    // Helper: collect messages of an entry from this scope and its ancestors.
    fn collect_entry_messages(&self, store: &MemoryStore, entry_name: &str) -> (r: Vec<MemoryMessage>)
        requires
            store.wf(),
            self.wf_in(store@.len()),
        ensures
            all_wf(r@),
            records(r@) == self.model_in(store@).entry_messages(entry_name@),
        decreases self,
    {
        let mut base = match &self.parent {
            Some(p) => p.collect_entry_messages(store, entry_name),
            None => Vec::new(),
        };
        assert(self.parent.is_none() ==> records(base@) =~= Seq::<MessageRecord>::empty());
        let mine = self.copy_where(store, Selector::Entry(entry_name));
        proof {
            assert((|m: MessageRecord| selects(Selector::Entry(entry_name), m)) =~= (|r: MessageRecord|
                r.entry_name == Some(entry_name@)));
        }
        merge_messages(&mut base, mine);
        base
    }

    // Helper: collect messages of a runnable from this scope and its ancestors.
    fn collect_runnable_messages(&self, store: &MemoryStore, runnable_name: &str) -> (r: Vec<MemoryMessage>)
        requires
            store.wf(),
            self.wf_in(store@.len()),
        ensures
            all_wf(r@),
            records(r@) == self.model_in(store@).runnable_messages(runnable_name@),
        decreases self,
    {
        let mut base = match &self.parent {
            Some(p) => p.collect_runnable_messages(store, runnable_name),
            None => Vec::new(),
        };
        assert(self.parent.is_none() ==> records(base@) =~= Seq::<MessageRecord>::empty());
        let mine = self.copy_where(store, Selector::Runnable(runnable_name));
        proof {
            assert((|m: MessageRecord| selects(Selector::Runnable(runnable_name), m)) =~= (|m: MessageRecord|
                m.runnable_name == Some(runnable_name@)));
        }
        merge_messages(&mut base, mine);
        base
    }
}

impl Clone for MemoryManager {
    /// Another handle on the same scope (see `duplicate`).
    fn clone(&self) -> (m: Self)
        ensures
            m.scope_id() == self.scope_id(),
            forall|s: Seq<Seq<MessageRecord>>| #[trigger] m.model_in(s) == self.model_in(s),
            forall|n: nat| #[trigger] m.wf_in(n) == self.wf_in(n),
    {
        self.duplicate()
    }
}

/// Copies of the messages that a selector accepts, in order.
fn copy_selected(v: &Vec<MemoryMessage>, sel: Selector) -> (r: Vec<MemoryMessage>)
    requires
        all_wf(v@),
    ensures
        all_wf(r@),
        records(r@) == keep(records(v@), |m: MessageRecord| selects(sel, m)),
{
    let ghost pred = |m: MessageRecord| selects(sel, m);
    let mut r: Vec<MemoryMessage> = Vec::new();
    let mut i: usize = 0;
    while i < v.len()
        invariant
            all_wf(v@),
            i <= v@.len(),
            all_wf(r@),
            pred == (|m: MessageRecord| selects(sel, m)),
            records(r@) == keep(records(v@).subrange(0, i as int), pred),
        decreases v@.len() - i,
    {
        let ghost before = r@;
        let m = &v[i];
        let take = accepts(sel, m);
        let ghost sub = records(v@).subrange(0, i as int);
        let ghost next = records(v@).subrange(0, i + 1);
        proof {
            lemma_records_index(v@, i as int);
            assert(next.drop_last() =~= sub);
            assert(next.last() == m@);
            assert(pred(m@) == take);
            assert(keep(next, pred) == if take {
                keep(sub, pred).push(m@)
            } else {
                keep(sub, pred)
            });
        }
        if take {
            assert(m.wf());
            let d = m.duplicate();
            r.push(d);
            proof {
                lemma_records_push(before, d);
            }
        }
        assert(all_wf(r@)) by {
            assert forall|k: int| 0 <= k < r@.len() implies (#[trigger] r@[k]).wf() by {
                if k < before.len() {
                    assert(r@[k] == before[k]);
                }
            }
        }
        i = i + 1;
    }
    assert(records(v@).subrange(0, v@.len() as int) =~= records(v@));
    r
}

/// Which of a scope's messages to copy.
#[derive(Clone, Copy)]
enum Selector<'a> {
    All,
    Types(&'a Vec<MessageType>),
    Entry(&'a str),
    Runnable(&'a str),
}

/// Whether a selector accepts a record.
spec fn selects(sel: Selector, r: MessageRecord) -> bool {
    match sel {
        Selector::All => true,
        Selector::Types(ts) => type_included(ts@, r),
        Selector::Entry(e) => r.entry_name == Some(e@),
        Selector::Runnable(n) => r.runnable_name == Some(n@),
    }
}

/// Decides whether a selector accepts a message.
fn accepts(sel: Selector, m: &MemoryMessage) -> (b: bool)
    ensures
        b == selects(sel, m@),
{
    match sel {
        Selector::All => true,
        Selector::Types(ts) => type_in(ts, m.msg_type),
        Selector::Entry(e) => match &m.entry_name {
            Some(n) => crate::keyed::str_equal(n.as_str(), e),
            None => false,
        },
        Selector::Runnable(r) => match &m.runnable_name {
            Some(n) => crate::keyed::str_equal(n.as_str(), r),
            None => false,
        },
    }
}

/// Whether a type occurs in a list of types.
fn type_in(types: &Vec<MessageType>, t: MessageType) -> (b: bool)
    ensures
        b == types@.contains(t),
{
    let mut i: usize = 0;
    while i < types.len()
        invariant
            i <= types@.len(),
            forall|k: int| 0 <= k < i ==> types@[k] != t,
        decreases types@.len() - i,
    {
        if types[i] == t {
            assert(types@[i as int] == t);
            return true;
        }
        i = i + 1;
    }
    false
}

/// Inserts `m` into `base` after every message whose id does not exceed its own.
fn insert_message_into(base: &mut Vec<MemoryMessage>, m: MemoryMessage)
    requires
        all_wf(old(base)@),
        m.wf(),
    ensures
        all_wf(final(base)@),
        records(final(base)@) == insert_ordered(records(old(base)@), m@),
{
    let ghost old_records = records(base@);
    let ghost old_base = base@;
    let mut p: usize = base.len();
    while p > 0 && base[p - 1].sequence_id > m.sequence_id
        invariant
            p <= base@.len(),
            base@ == old_base,
            records(base@) == old_records,
            forall|k: int| p <= k < old_records.len() ==> #[trigger] old_records[k].sequence_id > m.sequence_id,
        decreases p,
    {
        p = p - 1;
    }
    proof {
        lemma_insert_at(old_records, m@, p as int);
    }
    base.insert(p, m);
    assert(records(base@) =~= insert_ordered(old_records, m@));
    assert(all_wf(base@)) by {
        assert forall|i: int| 0 <= i < base@.len() implies (#[trigger] base@[i]).wf() by {
            if i < p {
                assert(base@[i] == old_base[i]);
            } else if i > p {
                assert(base@[i] == old_base[i - 1]);
            }
        }
    }
}

/// Merges `extra` into `base`, first to last, keeping sequence order.
fn merge_messages(base: &mut Vec<MemoryMessage>, extra: Vec<MemoryMessage>)
    requires
        all_wf(old(base)@),
        all_wf(extra@),
    ensures
        all_wf(final(base)@),
        records(final(base)@) == merge_ordered(records(old(base)@), records(extra@)),
{
    let ghost start = records(base@);
    let ghost input = records(extra@);
    let n = extra.len();
    let ghost total = extra@.len();
    let mut extra = extra;
    let mut done: usize = 0;
    while extra.len() > 0
        invariant
            all_wf(base@),
            all_wf(extra@),
            done + extra@.len() == total,
            total == input.len(),
            total <= usize::MAX,
            records(extra@) == input.subrange(done as int, total as int),
            records(base@) == merge_ordered(start, input.subrange(0, done as int)),
        decreases extra@.len(),
    {
        let ghost before = extra@;
        let m = extra.remove(0);
        proof {
            lemma_records_index(before, 0);
            lemma_records_remove_first(before);
            assert(before[0].wf());
            assert(records(extra@) =~= input.subrange(done + 1, total as int));
            assert(input[done as int] == m@);
        }
        insert_message_into(base, m);
        assert(input.subrange(0, done + 1).drop_last() =~= input.subrange(0, done as int));
        done = done + 1;
        assert(all_wf(extra@)) by {
            assert forall|i: int| 0 <= i < extra@.len() implies (#[trigger] extra@[i]).wf() by {
                assert(extra@[i] == before[i + 1]);
            }
        }
    }
    assert(input.subrange(0, done as int) =~= input);
}

/// The record of an element is the element's view.
proof fn lemma_records_index(v: Seq<MemoryMessage>, i: int)
    requires
        0 <= i < v.len(),
    ensures
        records(v)[i] == v[i]@,
        records(v).len() == v.len(),
{
}

/// Removing the first message removes the first record.
proof fn lemma_records_remove_first(v: Seq<MemoryMessage>)
    requires
        v.len() > 0,
    ensures
        records(v.remove(0)) == records(v).subrange(1, v.len() as int),
{
    assert forall|k: int| 0 <= k < v.len() - 1 implies #[trigger] records(v.remove(0))[k] == records(
        v,
    ).subrange(1, v.len() as int)[k] by {
        assert(v.remove(0)[k] == v[k + 1]);
    }
    assert(records(v.remove(0)) =~= records(v).subrange(1, v.len() as int));
}

/// Appending a message appends its record.
proof fn lemma_records_push(v: Seq<MemoryMessage>, m: MemoryMessage)
    ensures
        records(v.push(m)) == records(v).push(m@),
{
    assert(records(v.push(m)) =~= records(v).push(m@));
}

/// The records that are not thoughts, in order.
pub open spec fn not_thoughts(s: Seq<MessageRecord>) -> Seq<MessageRecord>
    decreases s.len(),
{
    if s.len() == 0 {
        Seq::empty()
    } else if s.last().msg_type != MessageType::Thought {
        not_thoughts(s.drop_last()).push(s.last())
    } else {
        not_thoughts(s.drop_last())
    }
}

/// Keeping with a predicate that holds everywhere keeps everything.
proof fn lemma_keep_all(s: Seq<MessageRecord>, p: spec_fn(MessageRecord) -> bool)
    requires
        forall|r: MessageRecord| #[trigger] p(r),
    ensures
        keep(s, p) == s,
    decreases s.len(),
{
    if s.len() > 0 {
        lemma_keep_all(s.drop_last(), p);
        assert(s.drop_last().push(s.last()) =~= s);
    }
}

/// Whether one of the strings equals `s`.
fn contains_str(v: &Vec<String>, s: &str) -> (b: bool)
    ensures
        b == strings_view(v@).contains(s@),
{
    let mut i: usize = 0;
    while i < v.len()
        invariant
            i <= v@.len(),
            forall|k: int| 0 <= k < i ==> v@[k]@ != s@,
        decreases v@.len() - i,
    {
        if crate::keyed::str_equal(v[i].as_str(), s) {
            assert(strings_view(v@)[i as int] == s@);
            return true;
        }
        i = i + 1;
    }
    assert forall|k: int| 0 <= k < strings_view(v@).len() implies strings_view(v@)[k] != s@ by {
        assert(strings_view(v@)[k] == v@[k]@);
    }
    false
}

/// A count of a type never exceeds the number of records.
proof fn lemma_count_bound(s: Seq<MessageRecord>, t: MessageType)
    ensures
        count_of_type(s, t) <= s.len(),
    decreases s.len(),
{
    if s.len() > 0 {
        lemma_count_bound(s.drop_last(), t);
    }
}

/// The estimate of a prefix does not exceed the estimate of the whole.
proof fn lemma_token_prefix(s: Seq<MessageRecord>, i: int)
    requires
        0 <= i <= s.len(),
    ensures
        token_estimate(s.subrange(0, i)) <= token_estimate(s),
    decreases s.len() - i,
{
    if i < s.len() {
        lemma_token_prefix(s, i + 1);
        assert(s.subrange(0, i + 1).drop_last() =~= s.subrange(0, i));
    } else {
        assert(s.subrange(0, i) =~= s);
    }
}

/// Appending a record adds its entry name, if any.
proof fn lemma_entry_names_push(s: Seq<MessageRecord>, r: MessageRecord)
    ensures
        entry_names(s.push(r)) == match r.entry_name {
            Some(e) => entry_names(s).insert(e),
            None => entry_names(s),
        },
{
    let t = s.push(r);
    assert forall|e: Seq<char>| #[trigger] entry_names(t).contains(e) == match r.entry_name {
        Some(x) => entry_names(s).insert(x),
        None => entry_names(s),
    }.contains(e) by {
        if entry_names(s).contains(e) {
            let i = choose|i: int| 0 <= i < s.len() && #[trigger] s[i].entry_name == Some(e);
            assert(t[i].entry_name == Some(e));
        }
        if entry_names(t).contains(e) {
            let i = choose|i: int| 0 <= i < t.len() && #[trigger] t[i].entry_name == Some(e);
            if i < s.len() {
                assert(s[i].entry_name == Some(e));
            }
        }
        if r.entry_name == Some(e) {
            assert(t[s.len() as int].entry_name == Some(e));
        }
    }
    assert(entry_names(t) =~= match r.entry_name {
        Some(e) => entry_names(s).insert(e),
        None => entry_names(s),
    });
}

} // verus!
