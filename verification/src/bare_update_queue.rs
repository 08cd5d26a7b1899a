//! Coalescing queue for Filter/EQ/Compressor "bare field" updates, keyed by
//! `(track_id, field)`: a later value for the same field replaces the earlier one.

use crate::keyed::{keys_unique, pair_keys_view, upsert, upsert_pair_key, lemma_upsert_unique};
use vstd::prelude::*;

verus! {

#[derive(Debug)]
pub struct BareUpdateEntry<V> {
    pub track_id: String,
    pub field: String,
    pub value: V,
}

pub open spec fn bare_entries_view<V>(e: Seq<BareUpdateEntry<V>>) -> Seq<((Seq<char>, Seq<char>), V)> {
    e.map_values(|x: BareUpdateEntry<V>| ((x.track_id@, x.field@), x.value))
}

#[derive(Debug)]
pub struct BareUpdateQueue<V> {
    entries: Vec<((String, String), V)>,
}

impl<V> BareUpdateQueue<V> {
    /// The queued values by `(track_id, field)`, in first-queued order.
    pub closed spec fn view_entries(&self) -> Seq<((Seq<char>, Seq<char>), V)> {
        pair_keys_view(self.entries@)
    }

    pub closed spec fn wf(&self) -> bool {
        keys_unique(self.view_entries())
    }

    pub fn new() -> (res: Self)
        ensures
            res.wf(),
            res.view_entries().len() == 0,
    {
        BareUpdateQueue { entries: Vec::new() }
    }

    /// Queue `value` for `field` of `track_id`, replacing a value already queued for it.
    pub fn queue(&mut self, track_id: String, field: String, value: V)
        requires
            old(self).wf(),
        ensures
            final(self).wf(),
            final(self).view_entries() == upsert(old(self).view_entries(), (track_id@, field@), value),
    {
        let ghost k = (track_id@, field@);
        proof {
            lemma_upsert_unique(self.view_entries(), k, value);
        }
        upsert_pair_key(&mut self.entries, track_id, field, value);
    }

    pub fn is_empty(&self) -> (res: bool)
        ensures
            res == (self.view_entries().len() == 0),
    {
        self.entries.len() == 0
    }

    /// Drain and return every queued update, in first-queued order.
    pub fn take_all(&mut self) -> (res: Vec<BareUpdateEntry<V>>)
        ensures
            final(self).wf(),
            final(self).view_entries().len() == 0,
            bare_entries_view(res@) == old(self).view_entries(),
    {
        let ghost q = self.view_entries();
        let total = self.entries.len();
        let mut all: Vec<((String, String), V)> = Vec::new();
        std::mem::swap(&mut all, &mut self.entries);
        let mut out: Vec<BareUpdateEntry<V>> = Vec::new();
        let mut n: usize = 0;
        while all.len() > 0
            invariant
                n + all@.len() == q.len(),
                q.len() == total,
                pair_keys_view(all@) == q.subrange(n as int, q.len() as int),
                bare_entries_view(out@) == q.subrange(0, n as int),
                self.entries@.len() == 0,
            decreases all.len(),
        {
            let ghost before_all = all@;
            let ((track_id, field), value) = all.remove(0);
            assert(all@ =~= before_all.subrange(1, before_all.len() as int));
            assert forall|j: int| 0 <= j < all@.len() implies #[trigger] pair_keys_view(all@)[j] == q.subrange(n + 1, q.len() as int)[j] by {
                assert(all@[j] == before_all[j + 1]);
                assert(pair_keys_view(before_all)[j + 1] == q.subrange(n as int, q.len() as int)[j + 1]);
            }
            assert(pair_keys_view(all@) =~= q.subrange(n + 1, q.len() as int));
            assert(pair_keys_view(before_all)[0] == q[n as int]);
            let ghost before_out = out@;
            out.push(BareUpdateEntry { track_id, field, value });
            assert(bare_entries_view(out@) =~= bare_entries_view(before_out).push(q[n as int]));
            assert(q.subrange(0, n + 1) =~= q.subrange(0, n as int).push(q[n as int]));
            n = n + 1;
        }
        assert(q.subrange(0, q.len() as int) =~= q);
        out
    }
}

} // verus!
