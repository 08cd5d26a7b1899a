//! Insertion-ordered association lists keyed by text, used by the coalescing queues.
//!
//! A list holds each key at most once; `upsert` replaces the value of a present key in
//! place and appends a new key at the end.

use crate::text::str_eq;
use vstd::prelude::*;

verus! {

/// The pairs of a list, keys taken by their text.
pub open spec fn pairs_view<V>(v: Seq<(String, V)>) -> Seq<(Seq<char>, V)> {
    v.map_values(|p: (String, V)| (p.0@, p.1))
}

/// The first position of key `k`.
pub open spec fn key_pos<K, V>(s: Seq<(K, V)>, k: K) -> Option<int>
    decreases s.len(),
{
    if s.len() == 0 {
        None
    } else if s[0].0 == k {
        Some(0)
    } else {
        match key_pos(s.drop_first(), k) {
            Some(i) => Some(i + 1),
            None => None,
        }
    }
}

/// `s` with `k` bound to `v`: replaced in place when present, appended otherwise.
pub open spec fn upsert<K, V>(s: Seq<(K, V)>, k: K, v: V) -> Seq<(K, V)> {
    match key_pos(s, k) {
        Some(i) => s.update(i, (k, v)),
        None => s.push((k, v)),
    }
}

/// `s` with every pair of `items` upserted in turn.
pub open spec fn upsert_all<K, V>(s: Seq<(K, V)>, items: Seq<(K, V)>) -> Seq<(K, V)>
    decreases items.len(),
{
    if items.len() == 0 {
        s
    } else {
        let init = upsert_all(s, items.drop_last());
        upsert(init, items.last().0, items.last().1)
    }
}

/// No key occurs twice.
pub open spec fn keys_unique<K, V>(s: Seq<(K, V)>) -> bool {
    forall|i: int, j: int| 0 <= i < j < s.len() ==> s[i].0 != s[j].0
}

/// The map a list stands for.
pub open spec fn as_map<K, V>(s: Seq<(K, V)>) -> Map<K, V>
    decreases s.len(),
{
    if s.len() == 0 {
        Map::empty()
    } else {
        as_map(s.drop_last()).insert(s.last().0, s.last().1)
    }
}

pub proof fn lemma_key_pos<K, V>(s: Seq<(K, V)>, k: K)
    ensures
        match key_pos(s, k) {
            Some(i) => 0 <= i < s.len() && s[i].0 == k && forall|j: int| 0 <= j < i ==> s[j].0 != k,
            None => forall|j: int| 0 <= j < s.len() ==> s[j].0 != k,
        },
    decreases s.len(),
{
    if s.len() > 0 && s[0].0 != k {
        let t = s.drop_first();
        lemma_key_pos(t, k);
        assert forall|j: int| 0 < j < s.len() implies s[j] == t[j - 1] by {}
    }
}

proof fn lemma_as_map_contains<K, V>(s: Seq<(K, V)>, k: K)
    ensures
        as_map(s).contains_key(k) <==> exists|i: int| 0 <= i < s.len() && s[i].0 == k,
    decreases s.len(),
{
    if s.len() > 0 {
        lemma_as_map_contains(s.drop_last(), k);
        if exists|i: int| 0 <= i < s.len() && s[i].0 == k {
            let i = choose|i: int| 0 <= i < s.len() && s[i].0 == k;
            if i < s.len() - 1 {
                assert(s.drop_last()[i].0 == k);
            }
        }
        if exists|i: int| 0 <= i < s.drop_last().len() && s.drop_last()[i].0 == k {
            let i = choose|i: int| 0 <= i < s.drop_last().len() && s.drop_last()[i].0 == k;
            assert(s[i].0 == k);
        }
    }
}

proof fn lemma_as_map_unique_value<K, V>(s: Seq<(K, V)>, i: int)
    requires
        keys_unique(s),
        0 <= i < s.len(),
    ensures
        as_map(s).contains_key(s[i].0),
        as_map(s)[s[i].0] == s[i].1,
    decreases s.len(),
{
    let init = s.drop_last();
    if i < s.len() - 1 {
        assert(keys_unique(init));
        assert(init[i] == s[i]);
        lemma_as_map_unique_value(init, i);
        assert(s.last().0 != s[i].0);
    }
}

/// A list with unique keys stands for the map binding each of its keys to its value.
pub proof fn lemma_as_map_of_unique<K, V>(s: Seq<(K, V)>)
    requires
        keys_unique(s),
    ensures
        forall|k: K| #[trigger] as_map(s).contains_key(k) <==> exists|i: int| 0 <= i < s.len() && s[i].0 == k,
        forall|i: int| 0 <= i < s.len() ==> as_map(s)[#[trigger] s[i].0] == s[i].1,
{
    assert forall|k: K| #[trigger] as_map(s).contains_key(k) <==> exists|i: int| 0 <= i < s.len() && s[i].0 == k by {
        lemma_as_map_contains(s, k);
    }
    assert forall|i: int| 0 <= i < s.len() implies as_map(s)[#[trigger] s[i].0] == s[i].1 by {
        lemma_as_map_unique_value(s, i);
    }
}

/// Upserting keeps keys unique.
pub proof fn lemma_upsert_unique<K, V>(s: Seq<(K, V)>, k: K, v: V)
    requires
        keys_unique(s),
    ensures
        keys_unique(upsert(s, k, v)),
{
    lemma_key_pos(s, k);
}

/// Coalescing: on a list with unique keys, upserting `k` binds `k` to `v` and leaves every
/// other key as it was.
pub proof fn lemma_upsert_as_map<K, V>(s: Seq<(K, V)>, k: K, v: V)
    requires
        keys_unique(s),
    ensures
        as_map(upsert(s, k, v)) == as_map(s).insert(k, v),
{
    lemma_key_pos(s, k);
    lemma_upsert_unique(s, k, v);
    let t = upsert(s, k, v);
    lemma_as_map_of_unique(s);
    lemma_as_map_of_unique(t);
    assert forall|x: K| #[trigger] as_map(t).contains_key(x) <==> as_map(s).insert(k, v).contains_key(x) by {
        if x != k {
            if exists|i: int| 0 <= i < s.len() && s[i].0 == x {
                let i = choose|i: int| 0 <= i < s.len() && s[i].0 == x;
                assert(t[i].0 == x);
            }
            if exists|i: int| 0 <= i < t.len() && t[i].0 == x {
                let i = choose|i: int| 0 <= i < t.len() && t[i].0 == x;
                assert(s[i].0 == x);
            }
        } else {
            match key_pos(s, k) {
                Some(i) => assert(t[i].0 == k),
                None => assert(t[s.len() as int].0 == k),
            }
        }
    }
    assert forall|x: K| #[trigger] as_map(t).contains_key(x) implies as_map(t)[x] == as_map(s).insert(k, v)[x] by {
        let i = choose|i: int| 0 <= i < t.len() && t[i].0 == x;
        assert(as_map(t)[t[i].0] == t[i].1);
        if x != k {
            assert(s[i] == t[i]);
            assert(as_map(s)[s[i].0] == s[i].1);
        }
    }
    assert(as_map(t) =~= as_map(s).insert(k, v));
}

/// The first position of a key only depends on the keys.
pub proof fn lemma_key_pos_same_keys<K, A, B>(s: Seq<(K, A)>, t: Seq<(K, B)>, k: K)
    requires
        s.len() == t.len(),
        forall|i: int| 0 <= i < s.len() ==> s[i].0 == t[i].0,
    ensures
        key_pos(s, k) == key_pos(t, k),
    decreases s.len(),
{
    if s.len() > 0 {
        lemma_key_pos_same_keys(s.drop_first(), t.drop_first(), k);
    }
}

/// Finds the position of key `k` in a text-keyed list.
pub fn find_text_key<V>(v: &Vec<(String, V)>, k: &str) -> (res: Option<usize>)
    ensures
        match res {
            Some(i) => i < v@.len() && key_pos(pairs_view(v@), k@) == Some(i as int),
            None => key_pos(pairs_view(v@), k@) is None,
        },
{
    let ghost pv = pairs_view(v@);
    proof {
        lemma_key_pos(pv, k@);
    }
    let mut i: usize = 0;
    while i < v.len()
        invariant
            i <= v@.len(),
            pv == pairs_view(v@),
            pv.len() == v@.len(),
            forall|j: int| 0 <= j < i ==> pv[j].0 != k@,
            match key_pos(pv, k@) {
                Some(p) => 0 <= p < pv.len() && pv[p].0 == k@ && forall|j: int| 0 <= j < p ==> pv[j].0 != k@,
                None => forall|j: int| 0 <= j < pv.len() ==> pv[j].0 != k@,
            },
        decreases v.len() - i,
    {
        assert(pv[i as int].0 == v@[i as int].0@);
        if str_eq(v[i].0.as_str(), k) {
            return Some(i);
        }
        i = i + 1;
    }
    None
}

/// Binds `k` to `val` in a text-keyed list.
pub fn upsert_text_key<V>(v: &mut Vec<(String, V)>, k: String, val: V)
    ensures
        pairs_view(final(v)@) == upsert(pairs_view(old(v)@), k@, val),
{
    match find_text_key(v, k.as_str()) {
        Some(i) => {
            let ghost kv = k@;
            v.set(i, (k, val));
            assert(pairs_view(final(v)@) =~= pairs_view(old(v)@).update(i as int, (kv, val)));
        },
        None => {
            let ghost kv = k@;
            v.push((k, val));
            assert(pairs_view(final(v)@) =~= pairs_view(old(v)@).push((kv, val)));
        },
    }
}

/// The pairs of a list keyed by two texts, keys taken by their text.
pub open spec fn pair_keys_view<V>(v: Seq<((String, String), V)>) -> Seq<((Seq<char>, Seq<char>), V)> {
    v.map_values(|p: ((String, String), V)| ((p.0.0@, p.0.1@), p.1))
}

/// Finds the position of key `(a, b)` in a list keyed by two texts.
pub fn find_pair_key<V>(v: &Vec<((String, String), V)>, a: &str, b: &str) -> (res: Option<usize>)
    ensures
        match res {
            Some(i) => i < v@.len() && key_pos(pair_keys_view(v@), (a@, b@)) == Some(i as int),
            None => key_pos(pair_keys_view(v@), (a@, b@)) is None,
        },
{
    let ghost pv = pair_keys_view(v@);
    let ghost k = (a@, b@);
    proof {
        lemma_key_pos(pv, k);
    }
    let mut i: usize = 0;
    while i < v.len()
        invariant
            i <= v@.len(),
            pv == pair_keys_view(v@),
            pv.len() == v@.len(),
            k == (a@, b@),
            forall|j: int| 0 <= j < i ==> pv[j].0 != k,
            match key_pos(pv, k) {
                Some(p) => 0 <= p < pv.len() && pv[p].0 == k && forall|j: int| 0 <= j < p ==> pv[j].0 != k,
                None => forall|j: int| 0 <= j < pv.len() ==> pv[j].0 != k,
            },
        decreases v.len() - i,
    {
        assert(pv[i as int].0 == (v@[i as int].0.0@, v@[i as int].0.1@));
        if str_eq(v[i].0.0.as_str(), a) && str_eq(v[i].0.1.as_str(), b) {
            return Some(i);
        }
        i = i + 1;
    }
    None
}

/// Binds `(a, b)` to `val` in a list keyed by two texts.
pub fn upsert_pair_key<V>(v: &mut Vec<((String, String), V)>, a: String, b: String, val: V)
    ensures
        pair_keys_view(final(v)@) == upsert(pair_keys_view(old(v)@), (a@, b@), val),
{
    let ghost k = (a@, b@);
    match find_pair_key(v, a.as_str(), b.as_str()) {
        Some(i) => {
            v.set(i, ((a, b), val));
            assert(pair_keys_view(final(v)@) =~= pair_keys_view(old(v)@).update(i as int, (k, val)));
        },
        None => {
            v.push(((a, b), val));
            assert(pair_keys_view(final(v)@) =~= pair_keys_view(old(v)@).push((k, val)));
        },
    }
}

/// After upserting `k`, its first position holds the new value.
pub proof fn lemma_upsert_lookup<K, V>(s: Seq<(K, V)>, k: K, v: V)
    ensures
        key_pos(upsert(s, k, v), k) matches Some(j) && upsert(s, k, v)[j] == (k, v)
            && j == match key_pos(s, k) { Some(i) => i, None => s.len() as int },
{
    lemma_key_pos(s, k);
    let t = upsert(s, k, v);
    lemma_key_pos(t, k);
    match key_pos(s, k) {
        Some(i) => {
            lemma_key_pos_same_keys(s, t, k);
        },
        None => {
            assert(t[s.len() as int].0 == k);
            if key_pos(t, k) is None {
                assert(false);
            }
            let j = key_pos(t, k)->Some_0;
            if j < s.len() {
                assert(t[j] == s[j]);
            }
        },
    }
}

/// Upserting the same key twice leaves what upserting the second value alone leaves.
pub proof fn lemma_upsert_twice<K, V>(s: Seq<(K, V)>, k: K, v1: V, v2: V)
    ensures
        upsert(upsert(s, k, v1), k, v2) == upsert(s, k, v2),
{
    lemma_upsert_lookup(s, k, v1);
    lemma_key_pos(s, k);
    let t = upsert(s, k, v1);
    match key_pos(s, k) {
        Some(i) => {
            assert(upsert(t, k, v2) =~= s.update(i, (k, v2)));
        },
        None => {
            assert(upsert(t, k, v2) =~= s.push((k, v2)));
        },
    }
}

} // verus!
