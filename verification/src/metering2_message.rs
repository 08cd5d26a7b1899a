//! Metering2 subscription bookkeeping: which MS channels to subscribe to for the metered
//! Console 1 slots, the subscribe request, and which metered slots a set of changed
//! channels affects.

use crate::json::{JsonValue, f64_is_finite, f64_order_key, i64_number, int_json, two_pow_52};
use crate::metering_utils::{MeteringDecodeResult, decode_metering2_binary, is_samples_decode, non_padded_decoded};
use crate::text::owned;
use crate::track_layout::LayoutSlot;
use std::collections::{HashMap, HashSet};
use vstd::prelude::*;

verus! {

broadcast use vstd::std_specs::hash::group_hash_axioms;

/// The fixed metering2 subscription ID this bridge always uses.
pub const METERING2_SUBSCRIPTION_ID: i64 = 0;

/// `o` is metered and referenced by one of the changed (non-negative) channels.
pub open spec fn is_affected(o: usize, changed: Seq<i64>, by_ch: Map<usize, Vec<usize>>, metered: Set<usize>) -> bool {
    &&& metered.contains(o)
    &&& exists|k: int| 0 <= k < changed.len() && changed[k] >= 0 && by_ch.contains_key(#[trigger] changed[k] as usize)
        && by_ch[changed[k] as usize]@.contains(o)
}

/// Given MS channels whose dB value just changed, the object IDs both mapped to one of
/// them and currently metered. Negative channel numbers are ignored.
pub fn affected_metered_object_ids(
    changed_ms_channels: &[i64],
    object_ids_by_ms_channel: &HashMap<usize, Vec<usize>>,
    metered_object_ids: &HashSet<usize>,
) -> (res: HashSet<usize>)
    ensures
        res@.finite(),
        forall|o: usize| #[trigger] res@.contains(o) <==> is_affected(o, changed_ms_channels@, object_ids_by_ms_channel@, metered_object_ids@),
{
    let ghost changed = changed_ms_channels@;
    let ghost by_ch = object_ids_by_ms_channel@;
    let ghost metered = metered_object_ids@;
    let mut affected: HashSet<usize> = HashSet::new();
    let mut i: usize = 0;
    while i < changed_ms_channels.len()
        invariant
            i <= changed.len(),
            changed == changed_ms_channels@,
            by_ch == object_ids_by_ms_channel@,
            metered == metered_object_ids@,
            affected@.finite(),
            forall|o: usize| #[trigger] affected@.contains(o) <==> is_affected(o, changed.subrange(0, i as int), by_ch, metered),
        decreases changed.len() - i,
    {
        let ch = changed_ms_channels[i];
        let ghost before = affected@;
        if ch >= 0 {
            if let Some(object_ids) = object_ids_by_ms_channel.get(&(ch as usize)) {
                let mut j: usize = 0;
                while j < object_ids.len()
                    invariant
                        j <= object_ids@.len(),
                        affected@.finite(),
                        metered == metered_object_ids@,
                        forall|o: usize| #[trigger] affected@.contains(o) <==> (before.contains(o)
                            || (metered.contains(o) && object_ids@.subrange(0, j as int).contains(o))),
                    decreases object_ids.len() - j,
                {
                    let o = object_ids[j];
                    if metered_object_ids.contains(&o) {
                        affected.insert(o);
                    }
                    proof {
                        assert forall|x: usize| object_ids@.subrange(0, j + 1).contains(x) <==> (object_ids@.subrange(0, j as int).contains(x) || x == o) by {
                            if object_ids@.subrange(0, j + 1).contains(x) {
                                let k = choose|k: int| 0 <= k < j + 1 && #[trigger] object_ids@.subrange(0, j + 1)[k] == x;
                                if k < j {
                                    assert(object_ids@.subrange(0, j as int)[k] == x);
                                }
                            }
                            if object_ids@.subrange(0, j as int).contains(x) {
                                let k = choose|k: int| 0 <= k < j && #[trigger] object_ids@.subrange(0, j as int)[k] == x;
                                assert(object_ids@.subrange(0, j + 1)[k] == x);
                            }
                            if x == o {
                                assert(object_ids@.subrange(0, j + 1)[j as int] == x);
                            }
                        }
                    }
                    j = j + 1;
                }
                assert(object_ids@.subrange(0, object_ids@.len() as int) =~= object_ids@);
            }
        }
        proof {
            let pre = changed.subrange(0, i as int);
            let post = changed.subrange(0, i + 1);
            assert forall|o: usize| #[trigger] affected@.contains(o) <==> is_affected(o, post, by_ch, metered) by {
                if is_affected(o, post, by_ch, metered) {
                    let k = choose|k: int| 0 <= k < post.len() && post[k] >= 0 && by_ch.contains_key(#[trigger] post[k] as usize)
                        && by_ch[post[k] as usize]@.contains(o);
                    if k < i {
                        assert(pre[k] == post[k]);
                        assert(is_affected(o, pre, by_ch, metered));
                    }
                }
                if is_affected(o, pre, by_ch, metered) {
                    let k = choose|k: int| 0 <= k < pre.len() && pre[k] >= 0 && by_ch.contains_key(#[trigger] pre[k] as usize)
                        && by_ch[pre[k] as usize]@.contains(o);
                    assert(post[k] == pre[k]);
                }
                if affected@.contains(o) && !before.contains(o) {
                    assert(post[i as int] == ch);
                }
            }
        }
        i = i + 1;
    }
    assert(changed.subrange(0, changed.len() as int) =~= changed);
    affected
}

/// Strictly increasing: sorted, with no value twice.
pub open spec fn strictly_increasing(s: Seq<i64>) -> bool {
    forall|i: int, j: int| 0 <= i < j < s.len() ==> s[i] < s[j]
}

/// The MS channels of a slot, as the signed channel numbers of the subscription.
pub open spec fn signed_channels(chs: Seq<usize>) -> Seq<i64> {
    chs.map_values(|ch: usize| ch as i64)
}

/// Slot `o` of the layout is metered and lists channel `c`.
pub open spec fn metered_slot_lists(layout: Seq<LayoutSlot>, metered: Set<usize>, o: int, c: i64) -> bool {
    &&& 0 <= o < layout.len()
    &&& metered.contains(o as usize)
    &&& signed_channels(layout[o].ms_channels@).contains(c)
}

/// Channel `c` belongs in the subscription: some metered object ID's layout slot (the
/// slot at that position) lists it.
pub open spec fn is_subscribed_channel(layout: Seq<LayoutSlot>, metered: Set<usize>, c: i64) -> bool {
    exists|o: int| #[trigger] metered_slot_lists(layout, metered, o, c)
}

/// One entry of the subscription's `params`: `{"type": 0, "index": ch}`.
pub open spec fn is_subscribe_param(p: JsonValue, ch: i64) -> bool {
    &&& p matches JsonValue::Object(m) && m@.len() == 2
    &&& p.spec_get("type"@) == Some(JsonValue::Number(int_json(0)))
    &&& p.spec_get("index"@) == Some(JsonValue::Number(int_json(ch as int)))
}

/// The subscription's body: `{id: 0, interval, binary: false, params}`, one param per
/// channel in order.
pub open spec fn is_subscribe_body(b: JsonValue, channels: Seq<i64>, interval_ms: u32) -> bool {
    &&& b matches JsonValue::Object(bm) && bm@.len() == 4
    &&& b.spec_get("id"@) == Some(JsonValue::Number(int_json(METERING2_SUBSCRIPTION_ID as int)))
    &&& b.spec_get("interval"@) == Some(JsonValue::Number(int_json(interval_ms as int)))
    &&& b.spec_get("binary"@) == Some(JsonValue::Bool(false))
    &&& b.spec_get("params"@) matches Some(JsonValue::Array(ps)) && ps@.len() == channels.len()
        && forall|i: int| 0 <= i < channels.len() ==> is_subscribe_param(#[trigger] ps@[i], channels[i])
}

/// The metering2 subscribe request: `POST /console/metering2/subscribe` with the
/// subscription's body.
pub open spec fn is_subscribe_request(req: JsonValue, channels: Seq<i64>, interval_ms: u32) -> bool {
    &&& req matches JsonValue::Object(m) && m@.len() == 3
    &&& req.spec_get("path"@) matches Some(JsonValue::Str(p)) && p@ == "/console/metering2/subscribe"@
    &&& req.spec_get("method"@) matches Some(JsonValue::Str(m)) && m@ == "POST"@
    &&& req.spec_get("body"@) matches Some(b) && is_subscribe_body(b, channels, interval_ms)
}

/// Adds `x` to a strictly increasing list, keeping it so.
fn insert_sorted(v: &mut Vec<i64>, x: i64)
    requires
        strictly_increasing(old(v)@),
    ensures
        strictly_increasing(final(v)@),
        forall|c: i64| #[trigger] final(v)@.contains(c) <==> (old(v)@.contains(c) || c == x),
{
    let mut i: usize = 0;
    while i < v.len() && v[i] < x
        invariant
            i <= v@.len(),
            forall|k: int| 0 <= k < i ==> v@[k] < x,
        decreases v.len() - i,
    {
        i = i + 1;
    }
    if i < v.len() && v[i] == x {
        assert(v@[i as int] == x);
        return;
    }
    let ghost before = v@;
    v.insert(i, x);
    proof {
        assert(v@ =~= before.subrange(0, i as int).push(x) + before.subrange(i as int, before.len() as int));
        assert forall|a: int, b: int| 0 <= a < b < v@.len() implies v@[a] < v@[b] by {
            if b < i {
            } else if b == i {
            } else if a < i {
                assert(before[b - 1] >= x);
            } else if a == i {
                assert(before[b - 1] > x);
            } else {
                assert(before[a - 1] < before[b - 1]);
            }
        }
        assert forall|c: i64| #[trigger] v@.contains(c) <==> (before.contains(c) || c == x) by {
            if v@.contains(c) {
                let k = choose|k: int| 0 <= k < v@.len() && v@[k] == c;
                if k < i {
                    assert(before[k] == c);
                } else if k > i {
                    assert(before[k - 1] == c);
                }
            }
            if before.contains(c) {
                let k = choose|k: int| 0 <= k < before.len() && before[k] == c;
                if k < i {
                    assert(v@[k] == c);
                } else {
                    assert(v@[k + 1] == c);
                }
            }
            if c == x {
                assert(v@[i as int] == x);
            }
        }
    }
}

/// Builds the metering2 subscribe request from the metered object IDs and the layout:
/// the sorted, deduplicated MS channels of the metered slots (an object ID with no slot
/// is skipped), and the request subscribing to them in that order. An empty metered set
/// gives an empty subscription, which is how one is cleared.
pub fn build_metering2_subscribe_body(
    metered_object_ids: &HashSet<usize>,
    layout: &[LayoutSlot],
    interval_ms: u32,
) -> (res: (Vec<i64>, JsonValue))
    ensures
        strictly_increasing(res.0@),
        forall|c: i64| #[trigger] res.0@.contains(c) <==> is_subscribed_channel(layout@, metered_object_ids@, c),
        is_subscribe_request(res.1, res.0@, interval_ms),
{
    let ghost metered = metered_object_ids@;
    let ghost lay = layout@;
    let mut channels: Vec<i64> = Vec::new();
    let mut o: usize = 0;
    while o < layout.len()
        invariant
            o <= lay.len(),
            lay == layout@,
            metered == metered_object_ids@,
            strictly_increasing(channels@),
            forall|c: i64| #[trigger] channels@.contains(c) <==> exists|p: int| p < o && #[trigger] metered_slot_lists(lay, metered, p, c),
        decreases lay.len() - o,
    {
        let ghost before = channels@;
        if metered_object_ids.contains(&o) {
            let chs = &layout[o].ms_channels;
            let mut k: usize = 0;
            while k < chs.len()
                invariant
                    k <= chs@.len(),
                    strictly_increasing(channels@),
                    forall|c: i64| #[trigger] channels@.contains(c) <==> (before.contains(c)
                        || signed_channels(chs@.subrange(0, k as int)).contains(c)),
                decreases chs.len() - k,
            {
                let ch = chs[k] as i64;
                insert_sorted(&mut channels, ch);
                proof {
                    let pre = signed_channels(chs@.subrange(0, k as int));
                    let post = signed_channels(chs@.subrange(0, k + 1));
                    assert(post =~= pre.push(ch));
                    assert forall|c: i64| post.contains(c) <==> (pre.contains(c) || c == ch) by {
                        if post.contains(c) {
                            let j = choose|j: int| 0 <= j < post.len() && post[j] == c;
                            if j < k {
                                assert(pre[j] == c);
                            }
                        }
                        if pre.contains(c) {
                            let j = choose|j: int| 0 <= j < pre.len() && pre[j] == c;
                            assert(post[j] == c);
                        }
                        if c == ch {
                            assert(post[k as int] == c);
                        }
                    }
                }
                k = k + 1;
            }
            assert(chs@.subrange(0, chs@.len() as int) =~= chs@);
        }
        proof {
            assert forall|c: i64| #[trigger] channels@.contains(c) <==> exists|p: int| p < o + 1 && #[trigger] metered_slot_lists(lay, metered, p, c) by {
                if channels@.contains(c) && !before.contains(c) {
                    assert(metered_slot_lists(lay, metered, o as int, c));
                }
                if exists|p: int| p < o + 1 && #[trigger] metered_slot_lists(lay, metered, p, c) {
                    let p = choose|p: int| p < o + 1 && #[trigger] metered_slot_lists(lay, metered, p, c);
                    if p < o {
                        assert(before.contains(c));
                    } else {
                        assert(layout@[o as int].ms_channels@ == lay[p].ms_channels@);
                    }
                }
            }
        }
        o = o + 1;
    }
    proof {
        assert forall|c: i64| #[trigger] channels@.contains(c) <==> is_subscribed_channel(lay, metered, c) by {
            if is_subscribed_channel(lay, metered, c) {
                let p = choose|p: int| #[trigger] metered_slot_lists(lay, metered, p, c);
                assert(p < o);
            }
        }
    }
    let mut params: Vec<JsonValue> = Vec::new();
    let mut i: usize = 0;
    while i < channels.len()
        invariant
            i <= channels@.len(),
            params@.len() == i,
            forall|j: int| 0 <= j < i ==> is_subscribe_param(#[trigger] params@[j], channels@[j]),
        decreases channels.len() - i,
    {
        let param = JsonValue::Object(vec![
            (owned("type"), JsonValue::Number(i64_number(0))),
            (owned("index"), JsonValue::Number(i64_number(channels[i]))),
        ]);
        proof {
            reveal_strlit("type");
            reveal_strlit("index");
            reveal_with_fuel(crate::json::member_value, 3);
            assert("type"@ != "index"@) by {
                assert("type"@.len() != "index"@.len());
            }
        }
        params.push(param);
        i = i + 1;
    }
    let ghost ps = params@;
    let body = JsonValue::Object(vec![
        (owned("id"), JsonValue::Number(i64_number(METERING2_SUBSCRIPTION_ID))),
        (owned("interval"), JsonValue::Number(i64_number(interval_ms as i64))),
        (owned("binary"), JsonValue::Bool(false)),
        (owned("params"), JsonValue::Array(params)),
    ]);
    let req = JsonValue::Object(vec![
        (owned("path"), JsonValue::Str(owned("/console/metering2/subscribe"))),
        (owned("method"), JsonValue::Str(owned("POST"))),
        (owned("body"), body),
    ]);
    proof {
        reveal_strlit("id");
        reveal_strlit("interval");
        reveal_strlit("binary");
        reveal_strlit("params");
        reveal_strlit("path");
        reveal_strlit("method");
        reveal_strlit("body");
        reveal_with_fuel(crate::json::member_value, 5);
        assert("id"@ != "interval"@ && "id"@ != "binary"@ && "id"@ != "params"@) by {
            assert("id"@.len() == 2 && "interval"@.len() == 8 && "binary"@.len() == 6 && "params"@.len() == 6);
        }
        assert("interval"@ != "binary"@ && "interval"@ != "params"@);
        assert("binary"@ != "params"@) by {
            assert("binary"@[0] != "params"@[0]);
        }
        assert("path"@ != "method"@ && "method"@ != "body"@) by {
            assert("path"@.len() == 4 && "method"@.len() == 6 && "body"@.len() == 4);
        }
        assert("path"@ != "body"@) by {
            assert("path"@[0] != "body"@[0]);
        }
    }
    (channels, req)
}

/// How the `v` list of a metering2 push groups its values by parameter.
#[derive(Debug, Clone, Copy, PartialEq, Eq, Structural)]
pub enum Metering2Shape {
    /// A list of per-parameter lists, used as is (one group per inner list; an inner
    /// value that is not a list counts as an empty group).
    NestedLists,
    /// One value per parameter.
    OnePerParam,
    /// A flat list of `values_per_param` values for each parameter in turn.
    Chunked { values_per_param: usize },
    /// A list that fits none of the above: all of it is one group.
    OneList,
    /// A single value: one group of one value.
    Scalar,
}

/// The grouping of a `v` value for `param_count` parameters.
pub open spec fn metering2_shape(v: JsonValue, param_count: nat) -> Metering2Shape {
    match v {
        JsonValue::Array(a) => {
            if a@.len() > 0 && a@[0] is Array {
                Metering2Shape::NestedLists
            } else if a@.len() == param_count {
                Metering2Shape::OnePerParam
            } else if param_count > 0 && a@.len() > param_count && a@.len() % param_count == 0 {
                Metering2Shape::Chunked { values_per_param: (a@.len() / param_count) as usize }
            } else {
                Metering2Shape::OneList
            }
        },
        _ => Metering2Shape::Scalar,
    }
}

/// The bit pattern of `f64::NEG_INFINITY`, the maximum of a group without finite values.
pub const F64_NEG_INFINITY_BITS: u64 = 0xfff0_0000_0000_0000;

/// The largest finite number of a group, as an `f64` bit pattern: values that are not
/// finite numbers are skipped, a tie keeps the earlier value, and a group without
/// finite numbers gives negative infinity.
pub open spec fn finite_max_bits(values: Seq<JsonValue>) -> u64
    decreases values.len(),
{
    if values.len() == 0 {
        F64_NEG_INFINITY_BITS
    } else {
        let acc = finite_max_bits(values.drop_last());
        match values.last().spec_as_f64_bits() {
            Some(b) => if f64_is_finite(b) && f64_order_key(b) > f64_order_key(acc) { b } else { acc },
            None => acc,
        }
    }
}

/// The per-parameter groups of a `v` value read with `shape`.
pub open spec fn metering2_groups(v: JsonValue, shape: Metering2Shape, param_count: nat) -> Seq<Seq<JsonValue>> {
    match v {
        JsonValue::Array(a) => match shape {
            Metering2Shape::NestedLists => a@.map_values(|x: JsonValue| match x {
                JsonValue::Array(inner) => inner@,
                _ => Seq::empty(),
            }),
            Metering2Shape::OnePerParam => a@.map_values(|x: JsonValue| seq![x]),
            Metering2Shape::Chunked { values_per_param } => Seq::new(
                param_count,
                |i: int| a@.subrange(i * values_per_param, (i + 1) * values_per_param),
            ),
            _ => seq![a@],
        },
        _ => seq![seq![v]],
    }
}

/// Each parameter's level out of a metering2 push: the peak of its group of `v` values,
/// as `f64` bit patterns of dB, or, for a binary push, its decoded peak in hundredths of
/// a dB.
#[derive(Debug, Clone, PartialEq, Eq)]
pub enum Metering2Levels {
    DbBits(Vec<u64>),
    CentiDb(Vec<i16>),
}

fn group_max_bits(values: &Vec<JsonValue>, lo: usize, hi: usize) -> (res: u64)
    requires
        lo <= hi <= values@.len(),
    ensures
        res == finite_max_bits(values@.subrange(lo as int, hi as int)),
{
    let mut acc: u64 = F64_NEG_INFINITY_BITS;
    let mut i: usize = lo;
    while i < hi
        invariant
            lo <= i <= hi <= values@.len(),
            acc == finite_max_bits(values@.subrange(lo as int, i as int)),
        decreases hi - i,
    {
        let ghost g = values@.subrange(lo as int, i + 1);
        assert(g.drop_last() =~= values@.subrange(lo as int, i as int));
        assert(g.last() == values@[i as int]);
        match values[i].as_f64_bits() {
            Some(b) => {
                let finite = (b % 0x8000_0000_0000_0000) / 0x10_0000_0000_0000 != 2047;
                assert(((b as int / two_pow_52() as int) % 2048 != 2047) == finite);
                if finite && order_greater(b, acc) {
                    acc = b;
                }
            },
            None => {},
        }
        i = i + 1;
    }
    acc
}

/// Whether `a` orders above `b` as `f64` values (both not NaN).
fn order_greater(a: u64, b: u64) -> (res: bool)
    ensures
        res == (f64_order_key(a) > f64_order_key(b)),
{
    let sign: u64 = 0x8000_0000_0000_0000;
    let ma = a % sign;
    let mb = b % sign;
    if a >= sign {
        if b >= sign { ma < mb } else { false }
    } else {
        if b >= sign { ma > 0 || mb > 0 } else { ma > mb }
    }
}

/// Normalizes a metering2 push body into one level per group for `param_count`
/// subscribed parameters: nothing for a zero count; for a body with `v`, the finite
/// maximum of each group of `v` (see [`metering2_shape`]); else, for a string `b`, its
/// binary decode (nothing where that fails); else nothing.
pub fn normalize_metering2_values(body: &JsonValue, param_count: usize) -> (res: Option<Metering2Levels>)
    ensures
        param_count == 0 ==> res is None,
        param_count > 0 && body.spec_get("v"@) is Some ==> {
            let v = body.spec_get("v"@).unwrap();
            let groups = metering2_groups(v, metering2_shape(v, param_count as nat), param_count as nat);
            &&& res matches Some(Metering2Levels::DbBits(levels))
            &&& levels@.len() == groups.len()
            &&& forall|i: int| 0 <= i < groups.len() ==> #[trigger] levels@[i] == finite_max_bits(groups[i])
        },
        param_count > 0 && body.spec_get("v"@) is None ==> match body.spec_get("b"@) {
            Some(JsonValue::Str(b)) => {
                let decoded = non_padded_decoded(b@, vstd::utf8::encode_utf8(b@).len() as usize as nat);
                match res {
                    Some(Metering2Levels::CentiDb(levels)) => exists|r: MeteringDecodeResult|
                        is_samples_decode(decoded, param_count as i64 as int, Some(r)) && r.max_centi_db_by_param == levels,
                    Some(Metering2Levels::DbBits(_)) => false,
                    None => is_samples_decode(decoded, param_count as i64 as int, None),
                }
            },
            _ => res is None,
        },
{
    if param_count == 0 {
        return None;
    }
    if let Some(v) = body.get("v") {
        let ghost shape = metering2_shape(*v, param_count as nat);
        let ghost groups = metering2_groups(*v, shape, param_count as nat);
        let mut levels: Vec<u64> = Vec::new();
        match v {
            JsonValue::Array(a) => {
                let n = a.len();
                if n > 0 && a[0].as_array().is_some() {
                    let mut i: usize = 0;
                    while i < n
                        invariant
                            n == a@.len(),
                            i <= n,
                            groups.len() == n,
                            shape == Metering2Shape::NestedLists,
                            groups == metering2_groups(JsonValue::Array(*a), shape, param_count as nat),
                            levels@.len() == i,
                            forall|j: int| 0 <= j < i ==> #[trigger] levels@[j] == finite_max_bits(groups[j]),
                        decreases n - i,
                    {
                        let m = match a[i].as_array() {
                            Some(inner) => {
                                let k = group_max_bits(inner, 0, inner.len());
                                assert(inner@.subrange(0, inner@.len() as int) =~= inner@);
                                k
                            },
                            None => {
                                assert(finite_max_bits(Seq::<JsonValue>::empty()) == F64_NEG_INFINITY_BITS);
                                F64_NEG_INFINITY_BITS
                            },
                        };
                        levels.push(m);
                        i = i + 1;
                    }
                } else if n == param_count {
                    let mut i: usize = 0;
                    while i < n
                        invariant
                            n == a@.len(),
                            i <= n,
                            groups.len() == n,
                            shape == Metering2Shape::OnePerParam,
                            groups == metering2_groups(JsonValue::Array(*a), shape, param_count as nat),
                            levels@.len() == i,
                            forall|j: int| 0 <= j < i ==> #[trigger] levels@[j] == finite_max_bits(groups[j]),
                        decreases n - i,
                    {
                        let m = group_max_bits(a, i, i + 1);
                        assert(a@.subrange(i as int, i + 1) =~= seq![a@[i as int]]);
                        levels.push(m);
                        i = i + 1;
                    }
                } else if n > param_count && n % param_count == 0 {
                    let per = n / param_count;
                    assert(per * param_count == n) by (nonlinear_arith)
                        requires per == n / param_count, n % param_count == 0, param_count > 0;
                    let mut i: usize = 0;
                    while i < param_count
                        invariant
                            n == a@.len(),
                            i <= param_count,
                            per * param_count == n,
                            groups.len() == param_count,
                            shape == (Metering2Shape::Chunked { values_per_param: per }),
                            groups == metering2_groups(JsonValue::Array(*a), shape, param_count as nat),
                            levels@.len() == i,
                            forall|j: int| 0 <= j < i ==> #[trigger] levels@[j] == finite_max_bits(groups[j]),
                        decreases param_count - i,
                    {
                        assert((i + 1) * per <= n) by (nonlinear_arith)
                            requires i < param_count, per * param_count == n;
                        assert(i * per + per == (i + 1) * per) by (nonlinear_arith);
                        let m = group_max_bits(a, i * per, i * per + per);
                        levels.push(m);
                        i = i + 1;
                    }
                } else {
                    let m = group_max_bits(a, 0, n);
                    assert(a@.subrange(0, n as int) =~= a@);
                    levels.push(m);
                    assert(shape == Metering2Shape::OneList);
                    assert(groups == seq![a@]);
                    assert(levels@[0] == finite_max_bits(groups[0]));
                }
            },
            _ => {
                let m = match v.as_f64_bits() {
                    Some(b) => {
                        let finite = (b % 0x8000_0000_0000_0000) / 0x10_0000_0000_0000 != 2047;
                        assert(((b as int / two_pow_52() as int) % 2048 != 2047) == finite);
                        if finite && order_greater(b, F64_NEG_INFINITY_BITS) { b } else { F64_NEG_INFINITY_BITS }
                    },
                    None => F64_NEG_INFINITY_BITS,
                };
                assert(seq![*v].drop_last() =~= Seq::<JsonValue>::empty());
                assert(seq![*v].last() == *v);
                assert(finite_max_bits(Seq::<JsonValue>::empty()) == F64_NEG_INFINITY_BITS);
                assert(m == finite_max_bits(seq![*v]));
                levels.push(m);
                assert(groups == seq![seq![*v]]);
                assert(levels@[0] == finite_max_bits(groups[0]));
            },
        }
        return Some(Metering2Levels::DbBits(levels));
    }
    match body.get("b") {
        Some(JsonValue::Str(b)) => {
            let pc = param_count as i64;
            match decode_metering2_binary(b.as_str(), pc) {
                Some(r) => Some(Metering2Levels::CentiDb(r.max_centi_db_by_param)),
                None => None,
            }
        },
        _ => None,
    }
}

} // verus!
