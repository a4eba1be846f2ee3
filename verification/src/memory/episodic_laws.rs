//! What recording into a bounded episodic store keeps: it never holds more
//! than its capacity (at least one), it evicts in recording order, oldest
//! first, and what is recorded can be found right after.

use vstd::prelude::*;
use super::episodic::{evicted, Episode};

verus! {

broadcast use vstd::seq_lib::group_seq_properties;

/// Eviction stops with room for one more episode, or with an empty store;
/// it keeps only stored episodes, and it removes exactly the episodes
/// recorded first: the order that is left is a suffix of the old order, and
/// an episode survives when its id is not in the part cut off.
pub proof fn law_eviction_oldest_first(m: Map<Seq<char>, Episode>, order: Seq<Seq<char>>, max: usize)
    requires
        m.dom().finite(),
        forall|k: Seq<char>| #[trigger] m.dom().contains(k) ==> order.contains(k),
    ensures
        ({
            let (m1, o1) = evicted(m, order, max);
            &&& m1.dom().finite()
            &&& m1.dom().len() < max || m1.dom().len() == 0
            &&& forall|k: Seq<char>| #[trigger] m1.dom().contains(k) ==> m.dom().contains(k) && m1[k] == m[k]
            &&& exists|j: int|
                0 <= j <= order.len() && o1 == order.skip(j) && forall|k: Seq<char>|
                    #[trigger] m1.dom().contains(k) <==> m.dom().contains(k) && !order.take(j).contains(k)
        }),
    decreases order.len(),
{
    let (m1, o1) = evicted(m, order, max);
    if m.dom().len() >= max && order.len() > 0 {
        let m2 = m.remove(order[0]);
        let o2 = order.drop_first();
        assert forall|k: Seq<char>| #[trigger] m2.dom().contains(k) implies o2.contains(k) by {
            assert(order.contains(k));
            let t = choose|t: int| 0 <= t < order.len() && order[t] == k;
            assert(t != 0);
            assert(o2[t - 1] == k);
        }
        law_eviction_oldest_first(m2, o2, max);
        let j2 = choose|j: int|
            0 <= j <= o2.len() && o1 == o2.skip(j) && forall|k: Seq<char>|
                #[trigger] m1.dom().contains(k) <==> m2.dom().contains(k) && !o2.take(j).contains(k);
        let j = j2 + 1;
        assert(o2.skip(j2) =~= order.skip(j));
        assert(order.take(j) =~= seq![order[0]] + o2.take(j2));
        assert forall|k: Seq<char>| #[trigger]
            m1.dom().contains(k) <==> m.dom().contains(k) && !order.take(j).contains(k) by {
            if order.take(j).contains(k) {
                let t = choose|t: int| 0 <= t < order.take(j).len() && order.take(j)[t] == k;
                if t > 0 {
                    assert(o2.take(j2)[t - 1] == k);
                }
            }
            if o2.take(j2).contains(k) {
                let t = choose|t: int| 0 <= t < o2.take(j2).len() && o2.take(j2)[t] == k;
                assert(order.take(j)[t + 1] == k);
            }
            assert(order.take(j)[0] == order[0]);
        }
    } else {
        assert(order.skip(0) =~= order);
        assert(order.take(0) =~= Seq::<Seq<char>>::empty());
        if !(m.dom().len() < max) {
            assert(m.dom() =~= Set::<Seq<char>>::empty());
        }
    }
}

/// After recording, the store holds at most its capacity, or one episode
/// when its capacity is zero.
pub proof fn law_record_respects_capacity(
    m: Map<Seq<char>, Episode>,
    order: Seq<Seq<char>>,
    max: usize,
    id: Seq<char>,
    e: Episode,
)
    requires
        m.dom().finite(),
        forall|k: Seq<char>| #[trigger] m.dom().contains(k) ==> order.contains(k),
    ensures
        evicted(m, order, max).0.insert(id, e).dom().len() <= vstd::math::max(max as int, 1),
        evicted(m, order, max).0.insert(id, e).dom().contains(id),
        evicted(m, order, max).0.insert(id, e)[id] == e,
{
    law_eviction_oldest_first(m, order, max);
    let m1 = evicted(m, order, max).0;
    if m1.dom().contains(id) {
        assert(m1.insert(id, e).dom() =~= m1.dom());
    } else {
        assert(m1.insert(id, e).dom() =~= m1.dom().insert(id));
    }
}

} // verus!
