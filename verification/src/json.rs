//! A plain-value model of the JSON documents exchanged with Console 1 and Mixing Station.
//!
//! Numbers keep the three representations JSON parsers distinguish (non-negative integer,
//! negative integer, float) together with the IEEE-754 bit pattern of the number's `f64`
//! reading, which is what every numeric comparison of the bridge goes by.

use crate::text::str_eq;
use vstd::prelude::*;

verus! {

/// How a JSON number was written.
#[derive(Debug, Clone, Copy, PartialEq, Eq, Structural)]
pub enum NumberKind {
    PosInt(u64),
    NegInt(i64),
    Float,
}

/// A JSON number: its representation, plus the bit pattern of its `f64` reading.
#[derive(Debug, Clone, Copy, PartialEq, Eq, Structural)]
pub struct JsonNumber {
    pub kind: NumberKind,
    pub f64_bits: u64,
}

/// A JSON value. Object members keep their order; lookups take the first member with
/// the requested key.
#[derive(Debug)]
pub enum JsonValue {
    Null,
    Bool(bool),
    Number(JsonNumber),
    Str(String),
    Array(Vec<JsonValue>),
    Object(Vec<(String, JsonValue)>),
}

/// The largest power of two not above `n` (1 for `n < 2`).
pub open spec fn top_power(n: nat) -> nat
    decreases n,
{
    if n < 2 { 1 } else { 2 * top_power(n / 2) }
}

/// The exponent of [`top_power`].
pub open spec fn top_exp(n: nat) -> nat
    decreases n,
{
    if n < 2 { 0 } else { 1 + top_exp(n / 2) }
}

/// 2^52, the weight of an `f64`'s lowest exponent bit.
pub open spec fn two_pow_52() -> nat {
    0x10_0000_0000_0000
}

/// The IEEE-754 bit pattern of the `f64` equal to the integer `n` (exact for `n < 2^53`):
/// biased exponent `1023 + e` for the highest set bit `e`, and the bits below it as the
/// top of the mantissa.
pub open spec fn exact_f64_bits(n: nat) -> nat {
    if n == 0 {
        0
    } else {
        ((1023 + top_exp(n)) * two_pow_52() + (n - top_power(n)) * (two_pow_52() / top_power(n))) as nat
    }
}

proof fn lemma_top_power(n: nat, p: nat, e: nat)
    requires
        n >= 1,
        p == vstd::arithmetic::power2::pow2(e),
        p <= n < 2 * p,
    ensures
        top_power(n) == p,
        top_exp(n) == e,
    decreases e,
{
    if e > 0 {
        vstd::arithmetic::power2::lemma_pow2_unfold(e);
        let h = vstd::arithmetic::power2::pow2((e - 1) as nat);
        assert(p == 2 * h);
        assert(h <= n / 2 < 2 * h);
        lemma_top_power(n / 2, h, (e - 1) as nat);
    } else {
        vstd::arithmetic::power2::lemma2_to64();
    }
}

/// The JSON number for a non-negative integer below 2^53.
pub fn int_number(n: u64) -> (res: JsonNumber)
    requires
        n < 0x20_0000_0000_0000,
    ensures
        res.kind == NumberKind::PosInt(n),
        res.f64_bits as nat == exact_f64_bits(n as nat),
        res.f64_bits < 0x4340_0000_0000_0000,
{
    if n == 0 {
        return JsonNumber { kind: NumberKind::PosInt(0), f64_bits: 0 };
    }
    let mut p: u64 = 1;
    let mut e: u64 = 0;
    proof {
        vstd::arithmetic::power2::lemma2_to64();
    }
    while p <= n / 2
        invariant
            1 <= p <= n,
            e <= 52,
            p as nat == vstd::arithmetic::power2::pow2(e as nat),
            n < 0x20_0000_0000_0000,
        decreases n - p,
    {
        proof {
            vstd::arithmetic::power2::lemma_pow2_unfold((e + 1) as nat);
            if e >= 52 {
                vstd::arithmetic::power2::lemma2_to64_rest();
                assert(false);
            }
        }
        p = p * 2;
        e = e + 1;
    }
    proof {
        lemma_top_power(n as nat, p as nat, e as nat);
        vstd::arithmetic::power2::lemma2_to64_rest();
        vstd::arithmetic::power2::lemma_pow2_adds(e as nat, (52 - e) as nat);
    }
    let scale: u64 = 0x10_0000_0000_0000 / p;
    let low = n - p;
    assert(low < p);
    assert(scale * p == 0x10_0000_0000_0000) by (nonlinear_arith)
        requires
            p as nat == vstd::arithmetic::power2::pow2(e as nat),
            vstd::arithmetic::power2::pow2(e as nat) * vstd::arithmetic::power2::pow2((52 - e) as nat) == 0x10_0000_0000_0000,
            scale == 0x10_0000_0000_0000u64 / p,
            p > 0,
    {
    }
    assert(low * scale < 0x10_0000_0000_0000) by (nonlinear_arith)
        requires
            low < p,
            scale * p == 0x10_0000_0000_0000,
    {
    }
    let bits = (1023 + e) * 0x10_0000_0000_0000 + low * scale;
    JsonNumber { kind: NumberKind::PosInt(n), f64_bits: bits }
}

/// The IEEE-754 bit pattern of the `f64` nearest to the integer `n` (ties to even), as a
/// cast of an integer to `f64` rounds it: exact below 2^53; above, the 53 leading bits are
/// kept and the rest rounded, carrying into the exponent when the mantissa overflows.
pub open spec fn nearest_f64_bits(n: nat) -> nat {
    if n < 2 * two_pow_52() {
        exact_f64_bits(n)
    } else {
        let e = top_exp(n);
        let d = top_power(n) / two_pow_52();
        let q = n / d;
        let r = n % d;
        let q2: nat = if 2 * r > d || (2 * r == d && q % 2 == 1) { q + 1 } else { q };
        if q2 == 2 * two_pow_52() {
            (1024 + e) * two_pow_52()
        } else {
            ((1023 + e) * two_pow_52() + (q2 - two_pow_52())) as nat
        }
    }
}

/// The JSON number for any non-negative integer, as a parser reads it.
pub fn u64_number(n: u64) -> (res: JsonNumber)
    ensures
        res.kind == NumberKind::PosInt(n),
        res.f64_bits as nat == nearest_f64_bits(n as nat),
        res.f64_bits < 0x4400_0000_0000_0000,
{
    if n < 0x20_0000_0000_0000 {
        return int_number(n);
    }
    let mut p: u64 = 1;
    let mut e: u64 = 0;
    proof {
        vstd::arithmetic::power2::lemma2_to64();
        vstd::arithmetic::power2::lemma2_to64_rest();
    }
    while p <= n / 2
        invariant
            1 <= p <= n,
            e <= 63,
            p as nat == vstd::arithmetic::power2::pow2(e as nat),
        decreases n - p,
    {
        proof {
            vstd::arithmetic::power2::lemma_pow2_unfold((e + 1) as nat);
            if e >= 63 {
                vstd::arithmetic::power2::lemma2_to64_rest();
                assert(false);
            }
        }
        p = p * 2;
        e = e + 1;
    }
    proof {
        lemma_top_power(n as nat, p as nat, e as nat);
        if e < 53 {
            vstd::arithmetic::power2::lemma_pow2_strictly_increases(e as nat, 53);
            vstd::arithmetic::power2::lemma2_to64();
            assert(false);
        }
        vstd::arithmetic::power2::lemma_pow2_adds((e - 52) as nat, 52);
        vstd::arithmetic::power2::lemma2_to64();
        vstd::arithmetic::power2::lemma_pow2_pos((e - 52) as nat);
    }
    let d: u64 = p / 0x10_0000_0000_0000;
    assert(d * 0x10_0000_0000_0000 == p) by (nonlinear_arith)
        requires
            p as nat == vstd::arithmetic::power2::pow2((e - 52) as nat) * 0x10_0000_0000_0000,
            d == p / 0x10_0000_0000_0000u64,
    {
    }
    assert(d <= 0x800) by (nonlinear_arith)
        requires
            d * 0x10_0000_0000_0000 == p,
            p <= 0x8000_0000_0000_0000u64,
    {
    }
    let q: u64 = n / d;
    let r: u64 = n % d;
    assert(0x10_0000_0000_0000 <= q < 0x20_0000_0000_0000) by (nonlinear_arith)
        requires
            d * 0x10_0000_0000_0000 == p,
            p <= n,
            n < 2 * p,
            d > 0,
            q == n / d,
    {
    }
    let up = 2 * r > d || (2 * r == d && q % 2 == 1);
    let q2: u64 = if up { q + 1 } else { q };
    let bits: u64 = if q2 == 0x20_0000_0000_0000 {
        (1024 + e) * 0x10_0000_0000_0000
    } else {
        (1023 + e) * 0x10_0000_0000_0000 + (q2 - 0x10_0000_0000_0000)
    };
    JsonNumber { kind: NumberKind::PosInt(n), f64_bits: bits }
}

/// The JSON number a parser reads for the integer `n`: non-negative integers keep their
/// value, negative ones too; the `f64` reading of a negative one is that of its magnitude
/// with the sign bit set.
pub open spec fn int_json(n: int) -> JsonNumber {
    if n >= 0 {
        JsonNumber { kind: NumberKind::PosInt(n as u64), f64_bits: nearest_f64_bits(n as nat) as u64 }
    } else {
        JsonNumber {
            kind: NumberKind::NegInt(n as i64),
            f64_bits: (0x8000_0000_0000_0000 + nearest_f64_bits((-n) as nat)) as u64,
        }
    }
}

/// The JSON number for any `i64`.
pub fn i64_number(n: i64) -> (res: JsonNumber)
    ensures
        res == int_json(n as int),
{
    if n >= 0 {
        u64_number(n as u64)
    } else {
        let m: u64 = (-(n + 1)) as u64 + 1;
        let mag = u64_number(m);
        JsonNumber { kind: NumberKind::NegInt(n), f64_bits: mag.f64_bits + 0x8000_0000_0000_0000 }
    }
}

/// The bit pattern is a finite `f64` (its exponent is not all ones).
pub open spec fn f64_is_finite(bits: u64) -> bool {
    (bits as int / two_pow_52() as int) % 2048 != 2047
}

/// The bit pattern is a NaN.
pub open spec fn f64_is_nan(bits: u64) -> bool {
    !f64_is_finite(bits) && bits as int % two_pow_52() as int != 0
}

/// An integer that orders non-NaN `f64` bit patterns as their values are ordered: the
/// magnitude, negated for a set sign bit (both zeros map to 0).
pub open spec fn f64_order_key(bits: u64) -> int {
    let mag = bits as int % 0x8000_0000_0000_0000;
    if bits >= 0x8000_0000_0000_0000 { -mag } else { mag }
}

/// `f64` `==` on bit patterns: neither is NaN, and they are equal or both zeros.
pub open spec fn f64_eq(a: u64, b: u64) -> bool {
    !f64_is_nan(a) && !f64_is_nan(b) && f64_bits_eq(a, b)
}

/// `f64` `==` on bit patterns.
pub fn f64_equal(a: u64, b: u64) -> (res: bool)
    ensures
        res == f64_eq(a, b),
{
    let a_nan = (a % 0x8000_0000_0000_0000) / 0x10_0000_0000_0000 == 2047 && a % 0x10_0000_0000_0000 != 0;
    let b_nan = (b % 0x8000_0000_0000_0000) / 0x10_0000_0000_0000 == 2047 && b % 0x10_0000_0000_0000 != 0;
    assert(((a as int / two_pow_52() as int) % 2048 == 2047) == ((a % 0x8000_0000_0000_0000) / 0x10_0000_0000_0000 == 2047));
    assert(((b as int / two_pow_52() as int) % 2048 == 2047) == ((b % 0x8000_0000_0000_0000) / 0x10_0000_0000_0000 == 2047));
    !a_nan && !b_nan && (a == b || ((a == 0 || a == 0x8000_0000_0000_0000) && (b == 0 || b == 0x8000_0000_0000_0000)))
}

/// `f64` equality of two bit patterns of non-NaN numbers: equal bits, or both zeros.
pub open spec fn f64_bits_eq(a: u64, b: u64) -> bool {
    a == b || ((a == 0 || a == 0x8000_0000_0000_0000) && (b == 0 || b == 0x8000_0000_0000_0000))
}

/// Equality of JSON numbers as JSON parsers compare them: the same representation, and
/// the same integer, or (for floats) equal `f64` readings.
pub open spec fn number_eq(a: JsonNumber, b: JsonNumber) -> bool {
    match (a.kind, b.kind) {
        (NumberKind::PosInt(x), NumberKind::PosInt(y)) => x == y,
        (NumberKind::NegInt(x), NumberKind::NegInt(y)) => x == y,
        (NumberKind::Float, NumberKind::Float) => f64_bits_eq(a.f64_bits, b.f64_bits),
        _ => false,
    }
}

/// Structural JSON equality: same shape, equal scalars, element-wise equal arrays, and
/// member-wise equal objects (same keys in the same order).
pub open spec fn json_eq(a: JsonValue, b: JsonValue) -> bool
    decreases a,
{
    match (a, b) {
        (JsonValue::Null, JsonValue::Null) => true,
        (JsonValue::Bool(x), JsonValue::Bool(y)) => x == y,
        (JsonValue::Number(x), JsonValue::Number(y)) => number_eq(x, y),
        (JsonValue::Str(x), JsonValue::Str(y)) => x@ == y@,
        (JsonValue::Array(x), JsonValue::Array(y)) => x@.len() == y@.len() && forall|i: int|
            0 <= i < x@.len() ==> json_eq(#[trigger] x@[i], y@[i]),
        (JsonValue::Object(x), JsonValue::Object(y)) => x@.len() == y@.len() && forall|i: int|
            0 <= i < x@.len() ==> (#[trigger] x@[i]).0@ == y@[i].0@ && json_eq(x@[i].1, y@[i].1),
        _ => false,
    }
}

/// `json_eq` is reflexive.
pub proof fn lemma_json_eq_refl(a: JsonValue)
    ensures
        json_eq(a, a),
    decreases a,
{
    match a {
        JsonValue::Array(x) => {
            assert forall|i: int| 0 <= i < x@.len() implies json_eq(#[trigger] x@[i], x@[i]) by {
                assert(decreases_to!(a => x));
                assert(decreases_to!(x => x@));
                assert(decreases_to!(x@ => x@[i]));
                lemma_json_eq_refl(x@[i]);
            }
        },
        JsonValue::Object(x) => {
            assert forall|i: int| 0 <= i < x@.len() implies (#[trigger] x@[i]).0@ == x@[i].0@ && json_eq(x@[i].1, x@[i].1) by {
                assert(decreases_to!(a => x));
                assert(decreases_to!(x => x@));
                assert(decreases_to!(x@ => x@[i]));
                assert(decreases_to!(x@[i] => x@[i].1));
                lemma_json_eq_refl(x@[i].1);
            }
        },
        _ => {},
    }
}

/// `json_eq` is symmetric.
pub proof fn lemma_json_eq_sym(a: JsonValue, b: JsonValue)
    requires
        json_eq(a, b),
    ensures
        json_eq(b, a),
    decreases a,
{
    match (a, b) {
        (JsonValue::Array(x), JsonValue::Array(y)) => {
            assert forall|i: int| 0 <= i < y@.len() implies json_eq(#[trigger] y@[i], x@[i]) by {
                assert(json_eq(x@[i], y@[i]));
                assert(decreases_to!(a => x));
                assert(decreases_to!(x => x@));
                assert(decreases_to!(x@ => x@[i]));
                lemma_json_eq_sym(x@[i], y@[i]);
            }
        },
        (JsonValue::Object(x), JsonValue::Object(y)) => {
            assert forall|i: int| 0 <= i < y@.len() implies (#[trigger] y@[i]).0@ == x@[i].0@ && json_eq(y@[i].1, x@[i].1) by {
                assert(x@[i].0@ == y@[i].0@ && json_eq(x@[i].1, y@[i].1));
                assert(decreases_to!(a => x));
                assert(decreases_to!(x => x@));
                assert(decreases_to!(x@ => x@[i]));
                assert(decreases_to!(x@[i] => x@[i].1));
                lemma_json_eq_sym(x@[i].1, y@[i].1);
            }
        },
        _ => {},
    }
}

/// `json_eq` is transitive.
pub proof fn lemma_json_eq_trans(a: JsonValue, b: JsonValue, c: JsonValue)
    requires
        json_eq(a, b),
        json_eq(b, c),
    ensures
        json_eq(a, c),
    decreases a,
{
    match (a, b, c) {
        (JsonValue::Array(x), JsonValue::Array(y), JsonValue::Array(z)) => {
            assert forall|i: int| 0 <= i < x@.len() implies json_eq(#[trigger] x@[i], z@[i]) by {
                assert(json_eq(x@[i], y@[i]));
                assert(json_eq(y@[i], z@[i]));
                assert(decreases_to!(a => x));
                assert(decreases_to!(x => x@));
                assert(decreases_to!(x@ => x@[i]));
                lemma_json_eq_trans(x@[i], y@[i], z@[i]);
            }
        },
        (JsonValue::Object(x), JsonValue::Object(y), JsonValue::Object(z)) => {
            assert forall|i: int| 0 <= i < x@.len() implies (#[trigger] x@[i]).0@ == z@[i].0@ && json_eq(x@[i].1, z@[i].1) by {
                assert(x@[i].0@ == y@[i].0@ && json_eq(x@[i].1, y@[i].1));
                assert(y@[i].0@ == z@[i].0@ && json_eq(y@[i].1, z@[i].1));
                assert(decreases_to!(a => x));
                assert(decreases_to!(x => x@));
                assert(decreases_to!(x@ => x@[i]));
                assert(decreases_to!(x@[i] => x@[i].1));
                lemma_json_eq_trans(x@[i].1, y@[i].1, z@[i].1);
            }
        },
        _ => {},
    }
}

/// A deep copy of `v`: structurally equal to it, and identical for scalars.
pub fn copy_json(v: &JsonValue) -> (res: JsonValue)
    ensures
        json_eq(res, *v),
        !(v is Array) && !(v is Object) ==> res == *v,
    decreases v,
{
    match v {
        JsonValue::Null => JsonValue::Null,
        JsonValue::Bool(b) => JsonValue::Bool(*b),
        JsonValue::Number(n) => {
            proof {
                lemma_json_eq_refl(*v);
            }
            JsonValue::Number(*n)
        },
        JsonValue::Str(s) => {
            proof {
                lemma_json_eq_refl(*v);
            }
            JsonValue::Str(s.clone())
        },
        JsonValue::Array(x) => {
            let mut out: Vec<JsonValue> = Vec::new();
            let mut i: usize = 0;
            while i < x.len()
                invariant
                    i <= x@.len(),
                    out@.len() == i,
                    *v == JsonValue::Array(*x),
                    forall|k: int| 0 <= k < i ==> json_eq(#[trigger] out@[k], x@[k]),
                decreases x.len() - i,
            {
                proof {
                    assert(decreases_to!(*v => (*v)->Array_0));
                    assert(decreases_to!(*x => x@));
                    assert(decreases_to!(x@ => x@[i as int]));
                }
                let c = copy_json(&x[i]);
                out.push(c);
                i = i + 1;
            }
            JsonValue::Array(out)
        },
        JsonValue::Object(x) => {
            let mut out: Vec<(String, JsonValue)> = Vec::new();
            let mut i: usize = 0;
            while i < x.len()
                invariant
                    i <= x@.len(),
                    out@.len() == i,
                    *v == JsonValue::Object(*x),
                    forall|k: int| 0 <= k < i ==> (#[trigger] out@[k]).0@ == x@[k].0@ && json_eq(out@[k].1, x@[k].1),
                decreases x.len() - i,
            {
                proof {
                    assert(decreases_to!(*v => (*v)->Object_0));
                    assert(decreases_to!(*x => x@));
                    assert(decreases_to!(x@ => x@[i as int]));
                    assert(decreases_to!(x@[i as int] => x@[i as int].1));
                }
                let c = copy_json(&x[i].1);
                out.push((x[i].0.clone(), c));
                i = i + 1;
            }
            JsonValue::Object(out)
        },
    }
}

/// The value of the first member named `key`.
pub open spec fn member_value(members: Seq<(String, JsonValue)>, key: Seq<char>) -> Option<JsonValue>
    decreases members.len(),
{
    if members.len() == 0 {
        None
    } else if members[0].0@ == key {
        Some(members[0].1)
    } else {
        member_value(members.drop_first(), key)
    }
}

fn number_equal(a: JsonNumber, b: JsonNumber) -> (res: bool)
    ensures
        res == number_eq(a, b),
{
    match (a.kind, b.kind) {
        (NumberKind::PosInt(x), NumberKind::PosInt(y)) => x == y,
        (NumberKind::NegInt(x), NumberKind::NegInt(y)) => x == y,
        (NumberKind::Float, NumberKind::Float) => {
            a.f64_bits == b.f64_bits || ((a.f64_bits == 0 || a.f64_bits == 0x8000_0000_0000_0000) && (
            b.f64_bits == 0 || b.f64_bits == 0x8000_0000_0000_0000))
        },
        _ => false,
    }
}

/// Structural JSON equality.
pub fn json_equal(a: &JsonValue, b: &JsonValue) -> (res: bool)
    ensures
        res == json_eq(*a, *b),
    decreases a,
{
    match (a, b) {
        (JsonValue::Null, JsonValue::Null) => true,
        (JsonValue::Bool(x), JsonValue::Bool(y)) => *x == *y,
        (JsonValue::Number(x), JsonValue::Number(y)) => number_equal(*x, *y),
        (JsonValue::Str(x), JsonValue::Str(y)) => str_eq(x.as_str(), y.as_str()),
        (JsonValue::Array(x), JsonValue::Array(y)) => {
            if x.len() != y.len() {
                return false;
            }
            let mut i: usize = 0;
            while i < x.len()
                invariant
                    x@.len() == y@.len(),
                    i <= x@.len(),
                    *a == JsonValue::Array(*x),
                    *b == JsonValue::Array(*y),
                    forall|k: int| 0 <= k < i ==> json_eq(#[trigger] x@[k], y@[k]),
                decreases x.len() - i,
            {
                proof {
                    assert(decreases_to!(*a => (*a)->Array_0));
                    assert(decreases_to!(*x => x@));
                    assert(decreases_to!(x@ => x@[i as int]));
                }
                if !json_equal(&x[i], &y[i]) {
                    return false;
                }
                i = i + 1;
            }
            true
        },
        (JsonValue::Object(x), JsonValue::Object(y)) => {
            if x.len() != y.len() {
                return false;
            }
            let mut i: usize = 0;
            while i < x.len()
                invariant
                    x@.len() == y@.len(),
                    i <= x@.len(),
                    *a == JsonValue::Object(*x),
                    *b == JsonValue::Object(*y),
                    forall|k: int| 0 <= k < i ==> (#[trigger] x@[k]).0@ == y@[k].0@ && json_eq(x@[k].1, y@[k].1),
                decreases x.len() - i,
            {
                if !str_eq(x[i].0.as_str(), y[i].0.as_str()) {
                    return false;
                }
                proof {
                    assert(decreases_to!(*a => (*a)->Object_0));
                    assert(decreases_to!(*x => x@));
                    assert(decreases_to!(x@ => x@[i as int]));
                    assert(decreases_to!(x@[i as int] => x@[i as int].1));
                }
                if !json_equal(&x[i].1, &y[i].1) {
                    return false;
                }
                i = i + 1;
            }
            true
        },
        _ => false,
    }
}

impl JsonValue {
    /// The member `key` of an object (`None` for non-objects and absent keys).
    pub open spec fn spec_get(&self, key: Seq<char>) -> Option<JsonValue> {
        match self {
            JsonValue::Object(members) => member_value(members@, key),
            _ => None,
        }
    }

    /// The text of a `Str` value.
    pub open spec fn spec_as_str(&self) -> Option<Seq<char>> {
        match self {
            JsonValue::Str(s) => Some(s@),
            _ => None,
        }
    }

    /// Whether this is the JSON literal `true`.
    pub open spec fn is_true(&self) -> bool {
        self.spec_as_bool() == Some(true)
    }

    pub fn get(&self, key: &str) -> (res: Option<&JsonValue>)
        ensures
            match res {
                Some(v) => self.spec_get(key@) == Some(*v),
                None => self.spec_get(key@) is None,
            },
    {
        match self {
            JsonValue::Object(members) => {
                let mut i: usize = 0;
                assert(members@.subrange(0, members@.len() as int) =~= members@);
                while i < members.len()
                    invariant
                        i <= members@.len(),
                        self.spec_get(key@) == member_value(members@, key@),
                        member_value(members@, key@) == member_value(members@.subrange(i as int, members@.len() as int), key@),
                    decreases members.len() - i,
                {
                    let ghost rest = members@.subrange(i as int, members@.len() as int);
                    assert(rest.drop_first() =~= members@.subrange(i + 1, members@.len() as int));
                    assert(rest[0] == members@[i as int]);
                    let m = &members[i];
                    if str_eq(m.0.as_str(), key) {
                        assert(member_value(rest, key@) == Some(m.1));
                        assert(self.spec_get(key@) == Some(m.1));
                        return Some(&m.1);
                    }
                    i = i + 1;
                }
                None
            },
            _ => None,
        }
    }

    pub fn as_str(&self) -> (res: Option<&str>)
        ensures
            match res {
                Some(s) => self.spec_as_str() == Some(s@),
                None => self.spec_as_str() is None,
            },
    {
        match self {
            JsonValue::Str(s) => Some(s.as_str()),
            _ => None,
        }
    }

    pub fn as_array(&self) -> (res: Option<&Vec<JsonValue>>)
        ensures
            match res {
                Some(a) => *self == JsonValue::Array(*a),
                None => !(self is Array),
            },
    {
        match self {
            JsonValue::Array(a) => Some(a),
            _ => None,
        }
    }

    pub fn is_null(&self) -> (res: bool)
        ensures
            res == (self is Null),
    {
        match self {
            JsonValue::Null => true,
            _ => false,
        }
    }

    pub fn is_object(&self) -> (res: bool)
        ensures
            res == (self is Object),
    {
        match self {
            JsonValue::Object(_) => true,
            _ => false,
        }
    }

    /// The boolean held by a `Bool` value.
    pub open spec fn spec_as_bool(&self) -> Option<bool> {
        match self {
            JsonValue::Bool(b) => Some(*b),
            _ => None,
        }
    }

    pub fn as_bool(&self) -> (res: Option<bool>)
        ensures
            res == self.spec_as_bool(),
    {
        match self {
            JsonValue::Bool(b) => Some(*b),
            _ => None,
        }
    }

    /// Takes the member `key` out of an object (`None` for non-objects and absent keys).
    pub fn into_member(self, key: &str) -> (res: Option<JsonValue>)
        ensures
            res == self.spec_get(key@),
    {
        match self {
            JsonValue::Object(members) => {
                let ghost all = members@;
                let mut members = members;
                let mut i: usize = 0;
                assert(all.subrange(0, all.len() as int) =~= all);
                while i < members.len()
                    invariant
                        members@ == all,
                        self.spec_get(key@) == member_value(all, key@),
                        i <= all.len(),
                        member_value(all, key@) == member_value(all.subrange(i as int, all.len() as int), key@),
                    decreases members.len() - i,
                {
                    let ghost rest = all.subrange(i as int, all.len() as int);
                    assert(rest.drop_first() =~= all.subrange(i + 1, all.len() as int));
                    assert(rest[0] == all[i as int]);
                    if str_eq(members[i].0.as_str(), key) {
                        let m = members.remove(i);
                        assert(m == all[i as int]);
                        assert(member_value(rest, key@) == Some(m.1));
                        return Some(m.1);
                    }
                    i = i + 1;
                }
                None
            },
            _ => None,
        }
    }

    /// The `f64` reading of a number, as its bit pattern.
    pub open spec fn spec_as_f64_bits(&self) -> Option<u64> {
        match self {
            JsonValue::Number(n) => Some(n.f64_bits),
            _ => None,
        }
    }

    /// The `f64` reading of a number, as its bit pattern (`as_f64`).
    pub fn as_f64_bits(&self) -> (res: Option<u64>)
        ensures
            res == self.spec_as_f64_bits(),
    {
        match self {
            JsonValue::Number(n) => Some(n.f64_bits),
            _ => None,
        }
    }
}

} // verus!
