//! Coalescing queue for outbound Console 1 → Mixing Station writes, keyed by
//! `(path, format)`: a later value for the same parameter replaces the earlier one.

use crate::keyed::{keys_unique, pair_keys_view, upsert, upsert_pair_key, lemma_upsert_unique};
use crate::json::JsonValue;
use vstd::string::*;
use crate::text::{concat_strs, concat_views, owned};
use vstd::prelude::*;

verus! {

#[derive(Debug)]
pub struct MsWriteEntry<V> {
    pub path: String,
    pub format: String,
    pub value: V,
}

pub open spec fn write_entries_view<V>(e: Seq<MsWriteEntry<V>>) -> Seq<((Seq<char>, Seq<char>), V)> {
    e.map_values(|x: MsWriteEntry<V>| ((x.path@, x.format@), x.value))
}

#[derive(Debug)]
pub struct MsWriteQueue<V> {
    entries: Vec<((String, String), V)>,
}

impl<V> MsWriteQueue<V> {
    /// The queued values by `(path, format)`, in first-queued order.
    pub closed spec fn view_entries(&self) -> Seq<((Seq<char>, Seq<char>), V)> {
        pair_keys_view(self.entries@)
    }

    pub closed spec fn wf(&self) -> bool {
        keys_unique(self.view_entries())
    }

    pub fn new() -> (res: Self)
        ensures
            res.wf(),
            res.view_entries().len() == 0,
    {
        MsWriteQueue { entries: Vec::new() }
    }

    /// Queue `value` for parameter `path` in `format`, replacing a value already queued for it.
    pub fn queue(&mut self, path: String, format: String, value: V)
        requires
            old(self).wf(),
        ensures
            final(self).wf(),
            final(self).view_entries() == upsert(old(self).view_entries(), (path@, format@), value),
    {
        let ghost k = (path@, format@);
        proof {
            lemma_upsert_unique(self.view_entries(), k, value);
        }
        upsert_pair_key(&mut self.entries, path, format, value);
    }

    pub fn is_empty(&self) -> (res: bool)
        ensures
            res == (self.view_entries().len() == 0),
    {
        self.entries.len() == 0
    }

    /// Drain and return every queued write, in first-queued order.
    pub fn take_all(&mut self) -> (res: Vec<MsWriteEntry<V>>)
        ensures
            final(self).wf(),
            final(self).view_entries().len() == 0,
            write_entries_view(res@) == old(self).view_entries(),
    {
        let ghost q = self.view_entries();
        let total = self.entries.len();
        let mut all: Vec<((String, String), V)> = Vec::new();
        std::mem::swap(&mut all, &mut self.entries);
        let mut out: Vec<MsWriteEntry<V>> = Vec::new();
        let mut n: usize = 0;
        while all.len() > 0
            invariant
                n + all@.len() == q.len(),
                q.len() == total,
                pair_keys_view(all@) == q.subrange(n as int, q.len() as int),
                write_entries_view(out@) == q.subrange(0, n as int),
                self.entries@.len() == 0,
            decreases all.len(),
        {
            let ghost before_all = all@;
            let ((path, format), value) = all.remove(0);
            assert(all@ =~= before_all.subrange(1, before_all.len() as int));
            assert forall|j: int| 0 <= j < all@.len() implies #[trigger] pair_keys_view(all@)[j] == q.subrange(n + 1, q.len() as int)[j] by {
                assert(all@[j] == before_all[j + 1]);
                assert(pair_keys_view(before_all)[j + 1] == q.subrange(n as int, q.len() as int)[j + 1]);
            }
            assert(pair_keys_view(all@) =~= q.subrange(n + 1, q.len() as int));
            assert(pair_keys_view(before_all)[0] == q[n as int]);
            let ghost before_out = out@;
            out.push(MsWriteEntry { path, format, value });
            assert(write_entries_view(out@) =~= write_entries_view(before_out).push(q[n as int]));
            assert(q.subrange(0, n + 1) =~= q.subrange(0, n as int).push(q[n as int]));
            n = n + 1;
        }
        assert(q.subrange(0, q.len() as int) =~= q);
        out
    }
}

/// The `/console/data/set/<path>/<format>` WS request for one write: its `path`, the
/// `POST` method, and a body `{value}`.
pub open spec fn is_ms_set_request(req: JsonValue, path: Seq<char>, format: Seq<char>, value: JsonValue) -> bool {
    &&& req matches JsonValue::Object(members) && members@.len() == 3
    &&& req.spec_get("path"@) matches Some(JsonValue::Str(p)) && p@ == "/console/data/set/"@ + path + "/"@ + format
    &&& req.spec_get("method"@) matches Some(JsonValue::Str(m)) && m@ == "POST"@
    &&& req.spec_get("body"@) matches Some(body) && body matches JsonValue::Object(bm) && bm@.len() == 1
        && body.spec_get("value"@) == Some(value)
}

/// Builds the `/console/data/set/<path>/<format>` WS request body for a single write.
pub fn build_ms_set_request(path: &str, format: &str, value: JsonValue) -> (res: JsonValue)
    ensures
        is_ms_set_request(res, path@, format@, value),
{
    let parts: Vec<&str> = vec!["/console/data/set/", path, "/", format];
    let full = concat_strs(parts.as_slice());
    proof {
        assert(parts@.subrange(0, 3) == parts@.drop_last());
        assert(concat_views(parts@) =~= "/console/data/set/"@ + path@ + "/"@ + format@) by {
            reveal_with_fuel(concat_views, 5);
            let p = parts@;
            assert(p.drop_last().drop_last().drop_last().drop_last() =~= Seq::<&str>::empty());
        }
    }
    let ghost v = value;
    let body = JsonValue::Object(vec![(owned("value"), value)]);
    let members = vec![
        (owned("path"), JsonValue::Str(full)),
        (owned("method"), JsonValue::Str(owned("POST"))),
        (owned("body"), body),
    ];
    let res = JsonValue::Object(members);
    proof {
        reveal_strlit("path");
        reveal_strlit("method");
        reveal_strlit("body");
        reveal_strlit("value");
        reveal_strlit("POST");
        reveal_with_fuel(crate::json::member_value, 4);
        assert(members@.drop_first().drop_first()[0] == members@[2]);
        assert(members@[0].0@ == "path"@);
        assert(members@[1].0@ == "method"@);
        assert(members@[2].0@ == "body"@);
        assert("path"@.len() == 4 && "method"@.len() == 6 && "body"@.len() == 4);
        assert("path"@ != "body"@) by {
            assert("path"@[0] != "body"@[0]);
        }
        assert(members@.drop_first()[0] == members@[1]);
        assert(res.spec_get("method"@) == Some(members@[1].1));
        assert(res.spec_get("body"@) == Some(members@[2].1));
    }
    res
}

} // verus!
