//! Sequences of message records kept in order of their sequence ids.
//!
//! `insert_ordered` places a record after every record whose id is not
//! larger, so merging keeps earlier records first among equal ids (a
//! stable merge).

use vstd::prelude::*;
use super::memory::MessageRecord;

verus! {

broadcast use vstd::seq_lib::group_seq_properties;

/// Records appear in non-decreasing order of sequence id.
pub open spec fn ordered(s: Seq<MessageRecord>) -> bool {
    forall|i: int, j: int| 0 <= i <= j < s.len() ==> #[trigger] s[i].sequence_id <= #[trigger] s[j].sequence_id
}

/// Inserts `m` after the last record whose id does not exceed its own.
pub open spec fn insert_ordered(s: Seq<MessageRecord>, m: MessageRecord) -> Seq<MessageRecord>
    decreases s.len(),
{
    if s.len() == 0 {
        seq![m]
    } else if s.last().sequence_id <= m.sequence_id {
        s.push(m)
    } else {
        insert_ordered(s.drop_last(), m).push(s.last())
    }
}

/// Inserts every record of `ms`, first to last, into `s`.
pub open spec fn merge_ordered(s: Seq<MessageRecord>, ms: Seq<MessageRecord>) -> Seq<MessageRecord>
    decreases ms.len(),
{
    if ms.len() == 0 {
        s
    } else {
        insert_ordered(merge_ordered(s, ms.drop_last()), ms.last())
    }
}

/// The records of `s` that satisfy `p`, in their order.
pub open spec fn keep(s: Seq<MessageRecord>, p: spec_fn(MessageRecord) -> bool) -> Seq<MessageRecord>
    decreases s.len(),
{
    if s.len() == 0 {
        Seq::empty()
    } else if p(s.last()) {
        keep(s.drop_last(), p).push(s.last())
    } else {
        keep(s.drop_last(), p)
    }
}

/// Insertion at position `p`, where every later record has a larger id and
/// the record before (if any) does not, is `insert_ordered`.
pub proof fn lemma_insert_at(s: Seq<MessageRecord>, m: MessageRecord, p: int)
    requires
        0 <= p <= s.len(),
        forall|k: int| p <= k < s.len() ==> #[trigger] s[k].sequence_id > m.sequence_id,
        p > 0 ==> s[p - 1].sequence_id <= m.sequence_id,
    ensures
        insert_ordered(s, m) == s.subrange(0, p).push(m) + s.subrange(p, s.len() as int),
    decreases s.len(),
{
    if s.len() == 0 {
        assert(s.subrange(0, 0).push(m) + s.subrange(0, 0) =~= seq![m]);
    } else if p == s.len() {
        assert(s.subrange(0, p) =~= s);
        assert(s.subrange(p, s.len() as int).len() == 0);
        assert(s.subrange(0, p).push(m) + s.subrange(p, s.len() as int) =~= s.push(m));
    } else {
        let init = s.drop_last();
        assert(s.last().sequence_id > m.sequence_id);
        lemma_insert_at(init, m, p);
        assert(init.subrange(0, p) =~= s.subrange(0, p));
        assert((init.subrange(0, p).push(m) + init.subrange(p, init.len() as int)).push(s.last())
            =~= s.subrange(0, p).push(m) + s.subrange(p, s.len() as int));
    }
}

/// Insertion adds exactly the inserted record and keeps the order.
pub proof fn lemma_insert_ordered(s: Seq<MessageRecord>, m: MessageRecord)
    requires
        ordered(s),
    ensures
        ordered(insert_ordered(s, m)),
        insert_ordered(s, m).len() == s.len() + 1,
        insert_ordered(s, m).to_multiset() =~= s.to_multiset().insert(m),
    decreases s.len(),
{
    if s.len() == 0 {
        assert(seq![m] =~= Seq::<MessageRecord>::empty().push(m));
    } else if s.last().sequence_id <= m.sequence_id {
    } else {
        let init = s.drop_last();
        lemma_insert_ordered(init, m);
        let r = insert_ordered(init, m);
        assert(init.push(s.last()) =~= s);
        assert forall|i: int, j: int| 0 <= i <= j < r.push(s.last()).len() implies #[trigger] r.push(
            s.last(),
        )[i].sequence_id <= #[trigger] r.push(s.last())[j].sequence_id by {
            if j == r.len() {
                if i < r.len() {
                    assert(r.to_multiset().count(r[i]) > 0);
                    assert(r.to_multiset() =~= init.to_multiset().insert(m));
                    if r[i] != m {
                        assert(init.to_multiset().count(r[i]) > 0);
                        assert(init.contains(r[i]));
                        let k = choose|k: int| 0 <= k < init.len() && init[k] == r[i];
                        assert(s[k] == init[k]);
                    }
                }
            }
        }
    }
}

/// Merging keeps the order and adds exactly the merged records.
pub proof fn lemma_merge_ordered(s: Seq<MessageRecord>, ms: Seq<MessageRecord>)
    requires
        ordered(s),
    ensures
        ordered(merge_ordered(s, ms)),
        merge_ordered(s, ms).len() == s.len() + ms.len(),
        merge_ordered(s, ms).to_multiset() =~= s.to_multiset().add(ms.to_multiset()),
    decreases ms.len(),
{
    if ms.len() > 0 {
        lemma_merge_ordered(s, ms.drop_last());
        lemma_insert_ordered(merge_ordered(s, ms.drop_last()), ms.last());
        assert(ms.drop_last().push(ms.last()) =~= ms);
    }
}

/// Merging an ordered sequence into nothing gives it back unchanged.
pub proof fn lemma_merge_into_empty(ms: Seq<MessageRecord>)
    requires
        ordered(ms),
    ensures
        merge_ordered(Seq::empty(), ms) == ms,
    decreases ms.len(),
{
    if ms.len() > 0 {
        let init = ms.drop_last();
        assert(ordered(init));
        lemma_merge_into_empty(init);
        if init.len() > 0 {
            assert(init.last().sequence_id <= ms.last().sequence_id);
            assert(init.push(ms.last()) =~= ms);
        } else {
            assert(seq![ms.last()] =~= ms);
        }
    }
}

/// Keeping the records that satisfy a predicate keeps the order.
pub proof fn lemma_keep_ordered(s: Seq<MessageRecord>, p: spec_fn(MessageRecord) -> bool)
    requires
        ordered(s),
    ensures
        ordered(keep(s, p)),
        keep(s, p).len() <= s.len(),
        forall|r: MessageRecord| #[trigger] keep(s, p).contains(r) <==> s.contains(r) && p(r),
    decreases s.len(),
{
    if s.len() > 0 {
        let init = s.drop_last();
        lemma_keep_ordered(init, p);
        let k = keep(init, p);
        if p(s.last()) {
            assert forall|i: int, j: int| 0 <= i <= j < k.push(s.last()).len() implies #[trigger] k.push(
                s.last(),
            )[i].sequence_id <= #[trigger] k.push(s.last())[j].sequence_id by {
                if j == k.len() && i < k.len() {
                    assert(k.contains(k[i]));
                    let t = choose|t: int| 0 <= t < init.len() && init[t] == k[i];
                    assert(s[t] == init[t]);
                }
            }
        }
        assert forall|r: MessageRecord| #[trigger] keep(s, p).contains(r) <==> s.contains(r) && p(r) by {
            if s.contains(r) && r != s.last() {
                let t = choose|t: int| 0 <= t < s.len() && s[t] == r;
                assert(init[t] == r);
            }
            if init.contains(r) {
                let t = choose|t: int| 0 <= t < init.len() && init[t] == r;
                assert(s[t] == r);
            }
            assert(s[s.len() - 1] == s.last());
        }
    }
}

/// Insertion adds one record, whatever the order.
pub proof fn lemma_insert_ordered_len(s: Seq<MessageRecord>, m: MessageRecord)
    ensures
        insert_ordered(s, m).len() == s.len() + 1,
    decreases s.len(),
{
    if s.len() > 0 && s.last().sequence_id > m.sequence_id {
        lemma_insert_ordered_len(s.drop_last(), m);
    }
}

} // verus!
