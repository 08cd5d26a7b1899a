//! Value coercion shared across config loading, Mixing Station ↔ Console 1 translation and
//! WebSocket payload handling.

use crate::json::{f64_is_finite, f64_order_key, two_pow_52, JsonValue, member_value};
use crate::text::{string_from_prefix, chars_of, char_is_whitespace, is_whitespace_char, string_from_chars, trim_chars, trim_end_seq, trim_seq, lemma_trim_end_cut};
use vstd::prelude::*;
use vstd::string::*;
use vstd::utf8::{decode_utf8, valid_utf8};

verus! {

/// A non-blank string: a `Str` whose text is not empty once trimmed.
pub fn is_non_empty_string(v: &JsonValue) -> (res: bool)
    ensures
        res == match v.spec_as_str() {
            Some(s) => trim_seq(s).len() > 0,
            None => false,
        },
{
    match v.as_str() {
        Some(s) => {
            let c = chars_of(s);
            trim_chars(c.as_slice()).len() > 0
        },
        None => false,
    }
}

/// Console 1 sometimes sends momentary button events instead of the final state: an
/// incoming value equal to the current one toggles it, a different one is taken as-is.
pub fn resolve_next_boolean_from_momentary(current: bool, incoming: bool) -> (res: bool)
    ensures
        res == if incoming == current { !current } else { incoming },
{
    if incoming == current {
        !current
    } else {
        incoming
    }
}

/// `s` with the suffix `suf` removed, if it ends with it.
pub open spec fn strip_suffix_seq(s: Seq<char>, suf: Seq<char>) -> Option<Seq<char>> {
    if s.len() >= suf.len() && s.subrange(s.len() - suf.len(), s.len() as int) == suf {
        Some(s.subrange(0, s.len() - suf.len()))
    } else {
        None
    }
}

/// `t` without a trailing side marker `" L"`, `" R"` or `" P"`, tried in that order.
pub open spec fn strip_side_marker(t: Seq<char>) -> Option<Seq<char>> {
    match strip_suffix_seq(t, seq![' ', 'L']) {
        Some(b) => Some(b),
        None => match strip_suffix_seq(t, seq![' ', 'R']) {
            Some(b) => Some(b),
            None => strip_suffix_seq(t, seq![' ', 'P']),
        },
    }
}

/// For a name ending in `tail` preceded by whitespace and a side marker, the name with the
/// marker dropped: `base + " " + tail`, or just `tail` when nothing precedes the marker.
pub open spec fn drop_marker_before_tail(n: Seq<char>, tail: Seq<char>) -> Option<Seq<char>> {
    match strip_suffix_seq(n, tail) {
        None => None,
        Some(before) => {
            let trimmed = trim_end_seq(before);
            if trimmed.len() == before.len() {
                None
            } else {
                match strip_side_marker(trimmed) {
                    None => None,
                    Some(base) => {
                        let b = trim_end_seq(base);
                        Some(if b.len() == 0 { tail } else { b + seq![' '] + tail })
                    },
                }
            }
        },
    }
}

pub open spec fn mixbus_word() -> Seq<char> {
    seq!['M', 'i', 'x', 'B', 'u', 's']
}

pub open spec fn mb_word() -> Seq<char> {
    seq!['M', 'B']
}

/// The display name of a stereo-linked channel: read without its trailing whitespace, a
/// trailing side marker is dropped, or else a side marker in front of a trailing
/// `MixBus`/`MB` label is dropped. A name with no recognizable marker, and a name shorter
/// than 2 bytes, is kept exactly as it is.
pub open spec fn stereo_display_name(name: Seq<char>, byte_len: int) -> Seq<char> {
    if byte_len < 2 {
        name
    } else {
        let n = trim_end_seq(name);
        match strip_side_marker(n) {
            Some(b) => b,
            None => match drop_marker_before_tail(n, mixbus_word()) {
                Some(r) => r,
                None => match drop_marker_before_tail(n, mb_word()) {
                    Some(r) => r,
                    None => name,
                },
            },
        }
    }
}

/// The length of `v[..len]` once its trailing whitespace is dropped.
fn trim_end_len(v: &[char], len: usize) -> (res: usize)
    requires
        len <= v@.len(),
    ensures
        res <= len,
        v@.subrange(0, res as int) == trim_end_seq(v@.subrange(0, len as int)),
{
    let mut b: usize = len;
    while b > 0 && char_is_whitespace(v[b - 1])
        invariant
            b <= len <= v@.len(),
            forall|k: int| b <= k < len ==> is_whitespace_char(v@[k]),
        decreases b,
    {
        b = b - 1;
    }
    proof {
        let s = v@.subrange(0, len as int);
        lemma_trim_end_cut(s, b as int);
        let cut = s.subrange(0, b as int);
        assert(cut =~= v@.subrange(0, b as int));
        if cut.len() > 0 {
            assert(cut.last() == v@[b - 1]);
        }
    }
    b
}

/// If `v[..len]` ends with `suf`, the length without it.
fn strip_suffix_len(v: &[char], len: usize, suf: &[char]) -> (res: Option<usize>)
    requires
        len <= v@.len(),
    ensures
        match res {
            Some(l) => l <= len && strip_suffix_seq(v@.subrange(0, len as int), suf@) == Some(v@.subrange(0, l as int)),
            None => strip_suffix_seq(v@.subrange(0, len as int), suf@) is None,
        },
{
    let ghost s = v@.subrange(0, len as int);
    if suf.len() > len {
        return None;
    }
    let start = len - suf.len();
    let mut k: usize = 0;
    while k < suf.len()
        invariant
            start + suf@.len() == len,
            len <= v@.len(),
            s == v@.subrange(0, len as int),
            k <= suf@.len(),
            forall|j: int| 0 <= j < k ==> v@[start + j] == suf@[j],
        decreases suf.len() - k,
    {
        if v[start + k] != suf[k] {
            assert(s.subrange(start as int, len as int)[k as int] != suf@[k as int]);
            return None;
        }
        k = k + 1;
    }
    assert(s.subrange(start as int, len as int) =~= suf@);
    assert(s.subrange(0, start as int) =~= v@.subrange(0, start as int));
    Some(start)
}

fn strip_marker_len(v: &[char], len: usize) -> (res: Option<usize>)
    requires
        len <= v@.len(),
    ensures
        match res {
            Some(l) => l <= len && strip_side_marker(v@.subrange(0, len as int)) == Some(v@.subrange(0, l as int)),
            None => strip_side_marker(v@.subrange(0, len as int)) is None,
        },
{
    let sl: Vec<char> = vec![' ', 'L'];
    let sr: Vec<char> = vec![' ', 'R'];
    let sp: Vec<char> = vec![' ', 'P'];
    assert(sl@ == seq![' ', 'L']);
    assert(sr@ == seq![' ', 'R']);
    assert(sp@ == seq![' ', 'P']);
    match strip_suffix_len(v, len, sl.as_slice()) {
        Some(l) => Some(l),
        None => match strip_suffix_len(v, len, sr.as_slice()) {
            Some(l) => Some(l),
            None => strip_suffix_len(v, len, sp.as_slice()),
        },
    }
}

fn drop_marker_before_tail_exec(v: &[char], n: usize, tail: &[char]) -> (res: Option<Vec<char>>)
    requires
        n <= v@.len(),
    ensures
        match res {
            Some(r) => drop_marker_before_tail(v@.subrange(0, n as int), tail@) == Some(r@),
            None => drop_marker_before_tail(v@.subrange(0, n as int), tail@) is None,
        },
{
    let before = match strip_suffix_len(v, n, tail) {
        Some(b) => b,
        None => return None,
    };
    let trimmed = trim_end_len(v, before);
    if trimmed == before {
        return None;
    }
    let base = match strip_marker_len(v, trimmed) {
        Some(b) => b,
        None => return None,
    };
    let b = trim_end_len(v, base);
    let mut out: Vec<char> = Vec::new();
    let mut i: usize = 0;
    while i < b
        invariant
            b <= v@.len(),
            i <= b,
            out@ == v@.subrange(0, i as int),
        decreases b - i,
    {
        out.push(v[i]);
        i = i + 1;
    }
    if b > 0 {
        out.push(' ');
    }
    let ghost prefix = out@;
    let mut j: usize = 0;
    while j < tail.len()
        invariant
            j <= tail@.len(),
            out@ == prefix + tail@.subrange(0, j as int),
        decreases tail.len() - j,
    {
        out.push(tail[j]);
        j = j + 1;
    }
    proof {
        assert(tail@.subrange(0, tail@.len() as int) =~= tail@);
        if b > 0 {
            assert(out@ =~= v@.subrange(0, b as int) + seq![' '] + tail@);
        } else {
            assert(out@ =~= tail@);
        }
    }
    Some(out)
}

/// For stereo-linked channel names coming from Mixing Station, strip trailing side
/// markers (`L`/`R`/`P`) so a stereo pair collapses to one shared display name:
/// `"Keys L"` → `"Keys"`, `"Dr L MixBus"` → `"Dr MixBus"`. Names with no recognizable
/// marker pass through unchanged.
pub fn trim_stereo_suffix_from_name(name: &str) -> (res: String)
    ensures
        res@ == stereo_display_name(name@, name.spec_bytes().len() as usize as int),
{
    if name.len() < 2 {
        return string_from_chars(chars_of(name).as_slice());
    }
    let v = chars_of(name);
    let n = trim_end_len(v.as_slice(), v.len());
    assert(v@.subrange(0, v@.len() as int) =~= v@);
    if let Some(l) = strip_marker_len(v.as_slice(), n) {
        return string_from_prefix(v.as_slice(), l);
    }
    let mixbus: Vec<char> = vec!['M', 'i', 'x', 'B', 'u', 's'];
    let mb: Vec<char> = vec!['M', 'B'];
    assert(mixbus@ == mixbus_word());
    assert(mb@ == mb_word());
    if let Some(r) = drop_marker_before_tail_exec(v.as_slice(), n, mixbus.as_slice()) {
        return string_from_chars(r.as_slice());
    }
    if let Some(r) = drop_marker_before_tail_exec(v.as_slice(), n, mb.as_slice()) {
        return string_from_chars(r.as_slice());
    }
    string_from_chars(v.as_slice())
}

/// The index of the first member named `key`, if any.
fn find_member(members: &Vec<(String, JsonValue)>, key: &str) -> (res: Option<usize>)
    ensures
        match res {
            Some(i) => i < members@.len() && member_value(members@, key@) == Some(members@[i as int].1),
            None => member_value(members@, key@) is None,
        },
{
    let mut i: usize = 0;
    assert(members@.subrange(0, members@.len() as int) =~= members@);
    while i < members.len()
        invariant
            i <= members@.len(),
            member_value(members@, key@) == member_value(members@.subrange(i as int, members@.len() as int), key@),
        decreases members.len() - i,
    {
        let ghost rest = members@.subrange(i as int, members@.len() as int);
        assert(rest.drop_first() =~= members@.subrange(i + 1, members@.len() as int));
        assert(rest[0] == members@[i as int]);
        if crate::text::str_eq(members[i].0.as_str(), key) {
            return Some(i);
        }
        i = i + 1;
    }
    None
}

/// The value a Console 1 DSP field carries: `{value: ...}`-wrapped objects are unwrapped,
/// anything else is taken as it is; an absent field stays absent.
pub open spec fn dsp_value_of(field: Option<JsonValue>) -> Option<JsonValue> {
    match field {
        None => None,
        Some(JsonValue::Object(members)) => match member_value(members@, "value"@) {
            Some(v) => Some(v),
            None => Some(JsonValue::Object(members)),
        },
        Some(v) => Some(v),
    }
}

/// Console 1's DSP-section fields arrive `{value: ...}`-wrapped, unlike the bare mixer
/// primitives. Unwraps either shape; `None` (field absent) stays `None`, while a present
/// `Null` stays `Some(Null)`.
pub fn read_c1_dsp_value(field: Option<JsonValue>) -> (res: Option<JsonValue>)
    ensures
        res == dsp_value_of(field),
{
    match field {
        None => None,
        Some(JsonValue::Object(mut members)) => {
            match find_member(&members, "value") {
                Some(i) => {
                    let (_k, v) = members.remove(i);
                    Some(v)
                },
                None => Some(JsonValue::Object(members)),
            }
        },
        Some(v) => Some(v),
    }
}

/// What std's `String::from_utf8_lossy` gives for `bytes`: the UTF-8 decoding, with each
/// invalid sequence replaced by U+FFFD.
pub uninterp spec fn utf8_lossy_text(bytes: Seq<u8>) -> Seq<char>;

/// std's `String::from_utf8_lossy`. Valid UTF-8 is decoded unchanged.
#[verifier::external_body]
fn from_utf8_lossy(data: &[u8]) -> (res: String)
    ensures
        res@ == utf8_lossy_text(data@),
        valid_utf8(data@) ==> res@ == decode_utf8(data@),
{
    String::from_utf8_lossy(data).into_owned()
}

/// The text of a WebSocket payload, decoded as UTF-8 with invalid sequences replaced.
pub fn coerce_ws_payload_to_text(data: &[u8]) -> (res: String)
    ensures
        res@ == utf8_lossy_text(data@),
        valid_utf8(data@) ==> res@ == decode_utf8(data@),
{
    from_utf8_lossy(data)
}

/// The bit pattern of `-90.0 + 1e-3`, the loudest level still taken as silence.
pub const NEGATIVE_INFINITY_DB_THRESHOLD_BITS: u64 = 0xc056_7fef_9db2_2d0e;

/// A finite number at or below -89.999 dB: the level Mixing Station means as silence.
pub open spec fn is_silence_db(value: JsonValue) -> bool {
    match value.spec_as_f64_bits() {
        Some(b) => f64_is_finite(b) && f64_order_key(b) <= f64_order_key(NEGATIVE_INFINITY_DB_THRESHOLD_BITS),
        None => false,
    }
}

/// Whether `value` is a finite number at or below -89.999 dB (Mixing Station's silence).
pub fn is_negative_infinity_db(value: &JsonValue) -> (res: bool)
    ensures
        res == is_silence_db(*value),
{
    match value.as_f64_bits() {
        Some(b) => {
            let finite = (b % 0x8000_0000_0000_0000) / 0x10_0000_0000_0000 != 2047;
            assert(((b as int / two_pow_52() as int) % 2048 != 2047) == finite);
            // Both are negative: the larger magnitude is the smaller value.
            finite && b >= 0x8000_0000_0000_0000
                && b % 0x8000_0000_0000_0000 >= NEGATIVE_INFINITY_DB_THRESHOLD_BITS % 0x8000_0000_0000_0000
        },
        None => false,
    }
}

} // verus!
