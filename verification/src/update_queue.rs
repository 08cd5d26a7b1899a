//! Coalescing queue for outbound Console 1 track field updates, keyed by trackId.

use crate::keyed::{find_text_key, keys_unique, pairs_view, upsert, upsert_all, upsert_text_key, lemma_upsert_unique};
use vstd::prelude::*;

verus! {

/// Merged partial field updates for one trackId, and whether the flush must go out even
/// while output is otherwise held back.
#[derive(Debug)]
pub struct QueuedUpdate<V> {
    /// Later `queue()` calls for the same field overwrite earlier ones; other fields
    /// accumulate (first-queued first).
    pub fields: Vec<(String, V)>,
    /// Sticky: once true for a trackId, stays true until drained.
    pub force_send: bool,
}

/// What one trackId has queued: its fields (by field name) and its force flag.
pub type QueuedView<V> = (Seq<(Seq<char>, V)>, bool);

pub open spec fn queued_view<V>(q: QueuedUpdate<V>) -> QueuedView<V> {
    (pairs_view(q.fields@), q.force_send)
}

pub open spec fn entries_view<V>(e: Seq<(String, QueuedUpdate<V>)>) -> Seq<(Seq<char>, QueuedView<V>)> {
    e.map_values(|p: (String, QueuedUpdate<V>)| (p.0@, queued_view(p.1)))
}

/// The queue after queuing `partial` for `track_id`: nothing for an empty partial;
/// otherwise the trackId's fields get every partial field upserted in turn, and its force
/// flag is or-ed with `force_send`.
pub open spec fn queued_after<V>(
    q: Seq<(Seq<char>, QueuedView<V>)>,
    track_id: Seq<char>,
    partial: Seq<(Seq<char>, V)>,
    force_send: bool,
) -> Seq<(Seq<char>, QueuedView<V>)> {
    if partial.len() == 0 {
        q
    } else {
        let current: QueuedView<V> = match crate::keyed::key_pos(q, track_id) {
            Some(i) => q[i].1,
            None => (Seq::empty(), false),
        };
        upsert(q, track_id, (upsert_all(current.0, partial), current.1 || force_send))
    }
}

/// The entries whose force flag is (`forced`) or is not set, in queue order.
pub open spec fn entries_with_force<V>(q: Seq<(Seq<char>, QueuedView<V>)>, forced: bool) -> Seq<(Seq<char>, QueuedView<V>)>
    decreases q.len(),
{
    if q.len() == 0 {
        Seq::empty()
    } else {
        let rest = entries_with_force(q.drop_last(), forced);
        if q.last().1.1 == forced { rest.push(q.last()) } else { rest }
    }
}

/// Coalescing queue of partial track updates.
#[derive(Debug)]
pub struct UpdateQueue<V> {
    entries: Vec<(String, QueuedUpdate<V>)>,
}

proof fn lemma_upsert_all_unique<V>(s: Seq<(Seq<char>, V)>, items: Seq<(Seq<char>, V)>)
    requires
        keys_unique(s),
    ensures
        keys_unique(upsert_all(s, items)),
    decreases items.len(),
{
    if items.len() > 0 {
        lemma_upsert_all_unique(s, items.drop_last());
        lemma_upsert_unique(upsert_all(s, items.drop_last()), items.last().0, items.last().1);
    }
}

proof fn lemma_filter_unique<V>(q: Seq<(Seq<char>, QueuedView<V>)>, forced: bool)
    requires
        keys_unique(q),
    ensures
        keys_unique(entries_with_force(q, forced)),
        forall|i: int| 0 <= i < entries_with_force(q, forced).len() ==> exists|j: int| 0 <= j < q.len() && q[j] == #[trigger] entries_with_force(q, forced)[i],
    decreases q.len(),
{
    if q.len() > 0 {
        let init = q.drop_last();
        assert(keys_unique(init));
        lemma_filter_unique(init, forced);
        let rest = entries_with_force(init, forced);
        assert forall|i: int| 0 <= i < rest.len() implies exists|j: int| 0 <= j < q.len() && q[j] == #[trigger] rest[i] by {
            let j = choose|j: int| 0 <= j < init.len() && init[j] == rest[i];
            assert(q[j] == init[j]);
        }
        if q.last().1.1 == forced {
            let r = rest.push(q.last());
            assert forall|i: int, j: int| 0 <= i < j < r.len() implies r[i].0 != r[j].0 by {
                if j == rest.len() {
                    let k = choose|k: int| 0 <= k < init.len() && init[k] == rest[i];
                    assert(q[k] == init[k]);
                    assert(k < q.len() - 1);
                }
            }
            assert forall|i: int| 0 <= i < r.len() implies exists|j: int| 0 <= j < q.len() && q[j] == #[trigger] r[i] by {
                if i == rest.len() {
                    assert(q[q.len() - 1] == r[i]);
                } else {
                    assert(r[i] == rest[i]);
                }
            }
        }
    }
}

impl<V> UpdateQueue<V> {
    /// The queued entries, by trackId text, in queue order.
    pub closed spec fn view_entries(&self) -> Seq<(Seq<char>, QueuedView<V>)> {
        entries_view(self.entries@)
    }

    /// Each trackId is queued once, and each queued update names each field once.
    pub closed spec fn wf(&self) -> bool {
        &&& keys_unique(self.view_entries())
        &&& forall|i: int| 0 <= i < self.view_entries().len() ==> keys_unique(#[trigger] self.view_entries()[i].1.0)
    }

    pub fn new() -> (res: Self)
        ensures
            res.wf(),
            res.view_entries().len() == 0,
    {
        UpdateQueue { entries: Vec::new() }
    }

    /// Queue a partial field update for a trackId. No-op for an empty `partial`.
    pub fn queue(&mut self, track_id: String, partial: Vec<(String, V)>, force_send: bool)
        requires
            old(self).wf(),
        ensures
            final(self).wf(),
            final(self).view_entries() == queued_after(old(self).view_entries(), track_id@, pairs_view(partial@), force_send),
    {
        let ghost q = self.view_entries();
        let ghost pv = pairs_view(partial@);
        if partial.len() == 0 {
            return;
        }
        let pos = find_text_key(&self.entries, track_id.as_str());
        proof {
            crate::keyed::lemma_key_pos_same_keys(q, pairs_view(self.entries@), track_id@);
        }
        let ghost current: QueuedView<V> = match crate::keyed::key_pos(q, track_id@) {
            Some(i) => q[i].1,
            None => (Seq::empty(), false),
        };
        let (mut fields, current_force) = match pos {
            Some(i) => {
                let (_k, entry) = self.entries.remove(i);
                (entry.fields, entry.force_send)
            },
            None => (Vec::new(), false),
        };
        assert(pairs_view(fields@) =~= current.0);
        assert(keys_unique(current.0));
        let total = partial.len();
        let mut rest = partial;
        let mut n: usize = 0;
        assert(pv.subrange(0, 0) =~= Seq::<(Seq<char>, V)>::empty());
        assert(pv.subrange(0, pv.len() as int) =~= pv);
        while rest.len() > 0
            invariant
                pairs_view(fields@) == upsert_all(current.0, pv.subrange(0, n as int)),
                pairs_view(rest@) == pv.subrange(n as int, pv.len() as int),
                n + rest@.len() == pv.len(),
                pv.len() == total,
            decreases rest.len(),
        {
            let ghost before_rest = rest@;
            let (k, v) = rest.remove(0);
            assert(pv[n as int] == pairs_view(before_rest)[0]);
            upsert_text_key(&mut fields, k, v);
            assert(pv.subrange(0, n + 1).drop_last() =~= pv.subrange(0, n as int));
            assert(rest@ =~= before_rest.subrange(1, before_rest.len() as int));
            assert forall|j: int| 0 <= j < rest@.len() implies #[trigger] pairs_view(rest@)[j] == pv.subrange(n + 1, pv.len() as int)[j] by {
                assert(rest@[j] == before_rest[j + 1]);
                assert(pairs_view(before_rest)[j + 1] == pv.subrange(n as int, pv.len() as int)[j + 1]);
            }
            assert(pairs_view(rest@) =~= pv.subrange(n + 1, pv.len() as int));
            n = n + 1;
        }
        assert(pv.subrange(0, n as int) =~= pv);
        proof {
            lemma_upsert_all_unique(current.0, pv);
        }
        let ghost new_view: QueuedView<V> = (upsert_all(current.0, pv), current.1 || force_send);
        let updated = QueuedUpdate { fields, force_send: current_force || force_send };
        let ghost tid = track_id@;
        match pos {
            Some(i) => {
                self.entries.insert(i, (track_id, updated));
                assert(self.view_entries() =~= q.update(i as int, (tid, new_view)));
            },
            None => {
                self.entries.push((track_id, updated));
                assert(self.view_entries() =~= q.push((tid, new_view)));
            },
        }
        proof {
            lemma_upsert_unique(q, tid, new_view);
            assert(self.view_entries() == upsert(q, tid, new_view));
            assert forall|i: int| 0 <= i < self.view_entries().len() implies keys_unique(#[trigger] self.view_entries()[i].1.0) by {
                match crate::keyed::key_pos(q, tid) {
                    Some(p) => {
                        if i != p {
                            assert(self.view_entries()[i] == q[i]);
                        }
                    },
                    None => {
                        if i < q.len() {
                            assert(self.view_entries()[i] == q[i]);
                        }
                    },
                }
            }
        }
    }

    pub fn is_empty(&self) -> (res: bool)
        ensures
            res == (self.view_entries().len() == 0),
    {
        self.entries.len() == 0
    }

    /// Drain and return only the force-send entries (in queue order), leaving the others
    /// queued.
    pub fn take_forced(&mut self) -> (res: Vec<(String, QueuedUpdate<V>)>)
        requires
            old(self).wf(),
        ensures
            final(self).wf(),
            entries_view(res@) == entries_with_force(old(self).view_entries(), true),
            final(self).view_entries() == entries_with_force(old(self).view_entries(), false),
    {
        let ghost q = self.view_entries();
        let total = self.entries.len();
        let mut all: Vec<(String, QueuedUpdate<V>)> = Vec::new();
        std::mem::swap(&mut all, &mut self.entries);
        let mut forced: Vec<(String, QueuedUpdate<V>)> = Vec::new();
        let mut n: usize = 0;
        while all.len() > 0
            invariant
                n + all@.len() == q.len(),
                q.len() == total,
                entries_view(all@) == q.subrange(n as int, q.len() as int),
                entries_view(forced@) == entries_with_force(q.subrange(0, n as int), true),
                entries_view(self.entries@) == entries_with_force(q.subrange(0, n as int), false),
            decreases all.len(),
        {
            let ghost before_all = all@;
            let e = all.remove(0);
            assert(all@ =~= before_all.subrange(1, before_all.len() as int));
            assert forall|j: int| 0 <= j < all@.len() implies #[trigger] entries_view(all@)[j] == q.subrange(n + 1, q.len() as int)[j] by {
                assert(all@[j] == before_all[j + 1]);
                assert(entries_view(before_all)[j + 1] == q.subrange(n as int, q.len() as int)[j + 1]);
            }
            assert(entries_view(all@) =~= q.subrange(n + 1, q.len() as int));
            assert(entries_view(before_all)[0] == q[n as int]);
            assert((e.0@, queued_view(e.1)) == q[n as int]);
            assert(q.subrange(0, n + 1).drop_last() =~= q.subrange(0, n as int));
            assert(q.subrange(0, n + 1).last() == q[n as int]);
            let ghost ev = (e.0@, queued_view(e.1));
            if e.1.force_send {
                let ghost before_forced = forced@;
                forced.push(e);
                assert(entries_view(forced@) =~= entries_view(before_forced).push(ev));
            } else {
                let ghost before_kept = self.entries@;
                self.entries.push(e);
                assert(entries_view(self.entries@) =~= entries_view(before_kept).push(ev));
            }
            n = n + 1;
        }
        assert(q.subrange(0, q.len() as int) =~= q);
        proof {
            lemma_filter_unique(q, false);
        }
        forced
    }

    /// Drain and return every queued entry, forced or not, in queue order.
    pub fn take_all(&mut self) -> (res: Vec<(String, QueuedUpdate<V>)>)
        ensures
            final(self).wf(),
            entries_view(res@) == old(self).view_entries(),
            final(self).view_entries().len() == 0,
    {
        let mut all: Vec<(String, QueuedUpdate<V>)> = Vec::new();
        std::mem::swap(&mut all, &mut self.entries);
        all
    }
}

/// Coalescing: queuing a field for a trackId and then queuing the same field again leaves
/// what queuing only the later value would have left, with both force flags or-ed in.
pub proof fn lemma_later_value_for_a_field_wins<V>(
    q: Seq<(Seq<char>, QueuedView<V>)>,
    track_id: Seq<char>,
    field: Seq<char>,
    v1: V,
    v2: V,
    force1: bool,
    force2: bool,
)
    ensures
        queued_after(queued_after(q, track_id, seq![(field, v1)], force1), track_id, seq![(field, v2)], force2)
            == queued_after(q, track_id, seq![(field, v2)], force1 || force2),
{
    let cur: QueuedView<V> = match crate::keyed::key_pos(q, track_id) {
        Some(i) => q[i].1,
        None => (Seq::empty(), false),
    };
    let p1 = seq![(field, v1)];
    let p2 = seq![(field, v2)];
    assert(p1.drop_last() =~= Seq::<(Seq<char>, V)>::empty());
    assert(p2.drop_last() =~= Seq::<(Seq<char>, V)>::empty());
    assert(upsert_all(cur.0, p1.drop_last()) == cur.0);
    assert(upsert_all(cur.0, p1) == upsert(cur.0, field, v1));
    assert(upsert_all(cur.0, p2.drop_last()) == cur.0);
    assert(upsert_all(cur.0, p2) == upsert(cur.0, field, v2));
    let w1: QueuedView<V> = (upsert(cur.0, field, v1), cur.1 || force1);
    let q1 = upsert(q, track_id, w1);
    assert(queued_after(q, track_id, p1, force1) == q1);
    crate::keyed::lemma_upsert_lookup(q, track_id, w1);
    let j = crate::keyed::key_pos(q1, track_id)->Some_0;
    assert(q1[j].1 == w1);
    assert(upsert_all(w1.0, p2.drop_last()) == w1.0);
    assert(upsert_all(w1.0, p2) == upsert(w1.0, field, v2));
    crate::keyed::lemma_upsert_twice(cur.0, field, v1, v2);
    let w2: QueuedView<V> = (upsert(cur.0, field, v2), cur.1 || force1 || force2);
    assert(queued_after(q1, track_id, p2, force2) == upsert(q1, track_id, w2));
    crate::keyed::lemma_upsert_twice(q, track_id, w1, w2);
}

} // verus!
