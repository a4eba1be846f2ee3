//! What every operation on hierarchical memory keeps: sessions stay in
//! sequence order and hold exactly the messages of their scopes; adding,
//! clearing and consolidating change a session by exactly what they say.

use vstd::prelude::*;
use super::memory::{
    not_thoughts, type_included, HistoryVisibility, ManagerModel, MemoryManager, MessageRecord, MessageType,
};
use super::ordered::{
    insert_ordered, keep, lemma_insert_ordered, lemma_keep_ordered, lemma_merge_into_empty,
    lemma_merge_ordered, merge_ordered, ordered,
};

verus! {

broadcast use vstd::seq_lib::group_seq_properties;

/// The session of the parent scope, or nothing at the root.
pub open spec fn parent_session(m: ManagerModel) -> Seq<MessageRecord> {
    match m.parent {
        Some(p) => p.session(),
        None => Seq::empty(),
    }
}

/// A scope's session is in sequence order and holds exactly its parent's
/// session and its own messages.
pub proof fn law_session_ordered(m: ManagerModel)
    requires
        m.ordered_all(),
    ensures
        ordered(m.session()),
        m.session().len() == parent_session(m).len() + m.own.len(),
        m.session().to_multiset() == parent_session(m).to_multiset().add(m.own.to_multiset()),
    decreases m,
{
    match m.parent {
        Some(p) => {
            law_session_ordered(*p);
            lemma_merge_ordered(p.session(), m.own);
        },
        None => {
            lemma_merge_ordered(Seq::empty(), m.own);
        },
    }
}

/// At the root, the session is the scope's own messages, unchanged.
pub proof fn law_root_session_is_own(m: ManagerModel)
    requires
        m.parent.is_none(),
        ordered(m.own),
    ensures
        m.session() == m.own,
{
    lemma_merge_into_empty(m.own);
}

/// A child scope with no messages of its own sees exactly its parent's
/// session; with messages of its own it sees both.
pub proof fn law_child_sees_parent(child: ManagerModel)
    requires
        child.parent.is_some(),
        child.ordered_all(),
    ensures
        child.own.len() == 0 ==> child.session() == child.parent.unwrap().session(),
        child.session().to_multiset() == child.parent.unwrap().session().to_multiset().add(
            child.own.to_multiset(),
        ),
{
    law_session_ordered(child);
}

/// No message of a session has an id above the session's newest id.
pub proof fn lemma_session_below_top(m: ManagerModel)
    requires
        m.ordered_all(),
    ensures
        forall|i: int| 0 <= i < m.session().len() ==> #[trigger] m.session()[i].sequence_id
            <= m.top_id(),
    decreases m,
{
    law_session_ordered(m);
    assert forall|i: int| 0 <= i < m.session().len() implies #[trigger] m.session()[i].sequence_id
        <= m.top_id() by {
        let r = m.session()[i];
        assert(m.session().contains(r));
        assert(m.session().to_multiset().count(r) > 0);
        if m.own.contains(r) {
            let k = choose|k: int| 0 <= k < m.own.len() && m.own[k] == r;
            assert(m.own[m.own.len() - 1] == m.own.last());
            assert(m.own[k].sequence_id <= m.own[m.own.len() - 1].sequence_id);
        } else {
            assert(m.own.to_multiset().count(r) == 0);
            assert(parent_session(m).to_multiset().count(r) > 0);
            assert(parent_session(m).contains(r));
            match m.parent {
                Some(p) => {
                    lemma_session_below_top(*p);
                    let k = choose|k: int| 0 <= k < p.session().len() && p.session()[k] == r;
                    assert(p.session()[k].sequence_id <= p.top_id());
                },
                None => {},
            }
        }
    }
}

/// An ordered sequence whose ids do not exceed a record's id takes that
/// record at its end.
proof fn lemma_insert_last(s: Seq<MessageRecord>, x: MessageRecord)
    requires
        forall|i: int| 0 <= i < s.len() ==> #[trigger] s[i].sequence_id <= x.sequence_id,
    ensures
        insert_ordered(s, x) == s.push(x),
{
    if s.len() == 0 {
        assert(seq![x] =~= s.push(x));
    } else {
        assert(s[s.len() - 1] == s.last());
    }
}

/// After a message is added, the session holds it (with the scope's entry,
/// runnable and path filled in) besides everything it held before, in
/// order of sequence id; a message whose id is not below the session's
/// newest comes last, in the scope's own messages and in the session.
pub proof fn law_add_then_visible(m: ManagerModel, msg: MessageRecord)
    requires
        m.ordered_all(),
    ensures
        ({
            let after = ManagerModel { own: insert_ordered(m.own, m.enrich(msg)), ..m };
            &&& after.ordered_all()
            &&& ordered(after.session())
            &&& after.session().contains(m.enrich(msg))
            &&& after.session().len() == m.session().len() + 1
            &&& after.session().to_multiset() == m.session().to_multiset().insert(m.enrich(msg))
            &&& msg.sequence_id >= m.top_id() ==> after.own == m.own.push(m.enrich(msg))
                && after.session() == m.session().push(m.enrich(msg))
        }),
{
    let r = m.enrich(msg);
    let after = ManagerModel { own: insert_ordered(m.own, r), ..m };
    lemma_insert_ordered(m.own, r);
    law_session_ordered(m);
    law_session_ordered(after);
    assert(after.session().to_multiset() =~= m.session().to_multiset().insert(r));
    assert(after.session().to_multiset().count(r) > 0);
    if msg.sequence_id >= m.top_id() {
        lemma_session_below_top(m);
        assert forall|i: int| 0 <= i < m.own.len() implies #[trigger] m.own[i].sequence_id
            <= r.sequence_id by {
            assert(m.own[m.own.len() - 1] == m.own.last());
            assert(m.own[i].sequence_id <= m.own[m.own.len() - 1].sequence_id);
        }
        lemma_insert_last(m.own, r);
        lemma_insert_last(m.session(), r);
        assert(after.own.drop_last() =~= m.own);
        match m.parent {
            Some(p) => {
                assert(after.session() == insert_ordered(merge_ordered(p.session(), m.own), r));
            },
            None => {
                assert(after.session() == insert_ordered(merge_ordered(Seq::empty(), m.own), r));
            },
        }
    }
}

/// Clearing a scope leaves its session equal to its parent's session.
pub proof fn law_clear_leaves_parent_session(m: ManagerModel)
    ensures
        (ManagerModel { own: Seq::empty(), ..m }).session() == parent_session(m),
{
}

/// Consolidation merges into the parent exactly the child's own messages
/// of the included types, keeps the parent in order, and brings in nothing
/// else.
pub proof fn law_consolidation_adds_included(parent: ManagerModel, child: ManagerModel)
    requires
        parent.ordered_all(),
        ordered(child.own),
    ensures
        ({
            let types = parent.config.child_included_types;
            let kept = keep(child.own, |r: MessageRecord| type_included(types, r));
            let after = ManagerModel { own: merge_ordered(parent.own, kept), ..parent };
            &&& after.ordered_all()
            &&& after.own.len() == parent.own.len() + kept.len()
            &&& after.own.to_multiset() == parent.own.to_multiset().add(kept.to_multiset())
            &&& forall|r: MessageRecord|
                #[trigger] after.own.contains(r) <==> parent.own.contains(r) || (child.own.contains(
                    r,
                ) && types.contains(r.msg_type))
        }),
{
    let types = parent.config.child_included_types;
    let p = |r: MessageRecord| type_included(types, r);
    let kept = keep(child.own, p);
    lemma_keep_ordered(child.own, p);
    lemma_merge_ordered(parent.own, kept);
    let after = ManagerModel { own: merge_ordered(parent.own, kept), ..parent };
    assert forall|r: MessageRecord| #[trigger]
        after.own.contains(r) <==> parent.own.contains(r) || (child.own.contains(r)
            && types.contains(r.msg_type)) by {
        assert(after.own.to_multiset().count(r) == parent.own.to_multiset().count(r)
            + kept.to_multiset().count(r));
        assert(kept.contains(r) <==> child.own.contains(r) && p(r));
    }
}

/// Messages sent to a provider never include internal thoughts, and keep
/// every other message in order.
pub proof fn law_provider_messages_exclude_thoughts(s: Seq<MessageRecord>)
    ensures
        forall|i: int|
            0 <= i < not_thoughts(s).len() ==> (#[trigger] not_thoughts(s)[i]).msg_type
                != MessageType::Thought,
        forall|r: MessageRecord|
            #[trigger] not_thoughts(s).contains(r) <==> s.contains(r) && r.msg_type
                != MessageType::Thought,
        not_thoughts(s).len() <= s.len(),
    decreases s.len(),
{
    if s.len() > 0 {
        let init = s.drop_last();
        law_provider_messages_exclude_thoughts(init);
        assert forall|r: MessageRecord| #[trigger]
            not_thoughts(s).contains(r) <==> s.contains(r) && r.msg_type != MessageType::Thought by {
            if s.contains(r) && r != s.last() {
                let t = choose|t: int| 0 <= t < s.len() && s[t] == r;
                assert(init[t] == r);
            }
            if init.contains(r) {
                let t = choose|t: int| 0 <= t < init.len() && init[t] == r;
                assert(s[t] == r);
            }
            assert(s[s.len() - 1] == s.last());
        }
    }
}

/// Managers on the same scope share its messages: whatever the store holds,
/// a manager and its duplicates (or a child's parent and the parent itself)
/// see the same messages of that scope, so what one adds or clears, the
/// others see too.
pub proof fn law_same_scope_shares_messages(a: MemoryManager, b: MemoryManager, s: Seq<Seq<MessageRecord>>)
    requires
        a.scope_id() == b.scope_id(),
    ensures
        a.model_in(s).own == b.model_in(s).own,
{
    a.lemma_own_is_scope(s);
    b.lemma_own_is_scope(s);
}

/// A merge of ordered sequences holds exactly what either holds.
proof fn lemma_merge_contains(a: Seq<MessageRecord>, b: Seq<MessageRecord>, r: MessageRecord)
    requires
        ordered(a),
    ensures
        merge_ordered(a, b).contains(r) <==> a.contains(r) || b.contains(r),
{
    broadcast use vstd::seq_lib::group_to_multiset_ensures, vstd::multiset::group_multiset_axioms;
    lemma_merge_ordered(a, b);
    assert(merge_ordered(a, b).to_multiset().count(r) == a.to_multiset().count(r) + b.to_multiset().count(r));
}

/// A runnable's messages, gathered from a scope and its ancestors, are in
/// order and are exactly the session's messages of that runnable.
pub proof fn lemma_runnable_messages(m: ManagerModel, name: Seq<char>, r: MessageRecord)
    requires
        m.ordered_all(),
    ensures
        ordered(m.runnable_messages(name)),
        m.runnable_messages(name).contains(r) <==> m.session().contains(r) && r.runnable_name == Some(name),
    decreases m,
{
    let p = |x: MessageRecord| x.runnable_name == Some(name);
    lemma_keep_ordered(m.own, p);
    law_session_ordered(m);
    let mine = keep(m.own, p);
    match m.parent {
        Some(q) => {
            lemma_runnable_messages(*q, name, r);
            law_session_ordered(*q);
            lemma_merge_ordered(q.runnable_messages(name), mine);
            lemma_merge_contains(q.runnable_messages(name), mine, r);
            lemma_merge_contains(q.session(), m.own, r);
        },
        None => {
            lemma_merge_ordered(Seq::empty(), mine);
            lemma_merge_contains(Seq::empty(), mine, r);
            lemma_merge_contains(Seq::empty(), m.own, r);
        },
    }
}

/// An entry's messages, gathered from a scope and its ancestors, are in
/// order and are exactly the session's messages of that entry.
pub proof fn lemma_entry_messages(m: ManagerModel, name: Seq<char>, r: MessageRecord)
    requires
        m.ordered_all(),
    ensures
        ordered(m.entry_messages(name)),
        m.entry_messages(name).contains(r) <==> m.session().contains(r) && r.entry_name == Some(name),
    decreases m,
{
    let p = |x: MessageRecord| x.entry_name == Some(name);
    lemma_keep_ordered(m.own, p);
    law_session_ordered(m);
    let mine = keep(m.own, p);
    match m.parent {
        Some(q) => {
            lemma_entry_messages(*q, name, r);
            law_session_ordered(*q);
            lemma_merge_ordered(q.entry_messages(name), mine);
            lemma_merge_contains(q.entry_messages(name), mine, r);
            lemma_merge_contains(q.session(), m.own, r);
        },
        None => {
            lemma_merge_ordered(Seq::empty(), mine);
            lemma_merge_contains(Seq::empty(), mine, r);
            lemma_merge_contains(Seq::empty(), m.own, r);
        },
    }
}

/// What each visibility shows: Runnable visibility shows exactly the
/// session's messages whose runnable is the scope's runnable (nothing when
/// the scope names none); Entry visibility likewise for the scope's entry;
/// Analect visibility shows the scope's own messages; and every visibility
/// shows only messages of the session.
pub proof fn law_visibility_filters(m: ManagerModel, r: MessageRecord)
    requires
        m.ordered_all(),
    ensures
        m.visible(HistoryVisibility::Runnable).contains(r) <==> m.runnable_name.is_some()
            && r.runnable_name == m.runnable_name && m.session().contains(r),
        m.visible(HistoryVisibility::Entry).contains(r) <==> m.entry_name.is_some() && r.entry_name
            == m.entry_name && m.session().contains(r),
        m.visible(HistoryVisibility::Analect) == m.own,
        m.visible(HistoryVisibility::Session) == m.session(),
        m.visible(HistoryVisibility::Analect).contains(r) ==> m.session().contains(r),
{
    broadcast use vstd::seq_lib::group_to_multiset_ensures, vstd::multiset::group_multiset_axioms;
    law_session_ordered(m);
    match m.runnable_name {
        Some(n) => lemma_runnable_messages(m, n, r),
        None => {},
    }
    match m.entry_name {
        Some(n) => lemma_entry_messages(m, n, r),
        None => {},
    }
    if m.own.contains(r) {
        assert(m.own.to_multiset().count(r) > 0);
        assert(m.session().to_multiset().count(r) > 0);
    }
}

} // verus!
