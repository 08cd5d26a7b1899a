//! Console 1 → Mixing Station handlers for the Filter, EQ and Compressor sections. Each
//! touched field is unwrapped from its `{value: ...}` wrapper, clamped or converted,
//! stored in the track's DSP cache, reported as a bare-field update (never a track-batch
//! field), and written to each of the slot's channels.
//!
//! Numbers are handled as `f64` bit patterns; the two conversions that need floating-point
//! arithmetic (the input gain in dB, the EQ type index) are handed in by the caller.

use crate::channel_data_message::MsFormat;
use crate::json::{JsonNumber, JsonValue, NumberKind, f64_is_finite, f64_order_key, i64_number, int_json};
use crate::keyed::{pairs_view, upsert, upsert_text_key};
use crate::midi_mixer_dispatch::{MsWrite, channel_writes, is_scalar, push_writes_for_channels, switch_json, writes_view};
use crate::ms_param_apply::{MsParamApplyResult, MsValueFormat, ParamRoute, flag_of, flag_value, ms_param_applied, pan_json, route_of};
use crate::json::json_eq;
use crate::text::occurs_at;
use crate::text::{append_chars, chars_of, digit_char, owned, string_from_chars};
use crate::track_cache::TrackInfo;
use crate::track_layout::{LayoutSlot, LayoutSlotKind};
use crate::value_coercion::dsp_value_of;
use vstd::prelude::*;

verus! {

/// The bit pattern of `1.0_f64`.
pub const F64_ONE_BITS: u64 = 0x3ff0_0000_0000_0000;

/// A number clamped to 0..1 (`clamp01`): non-finite values give 0, values below 0 give 0,
/// values above 1 give 1, others are kept.
pub open spec fn clamp01_bits(b: u64) -> u64 {
    if !f64_is_finite(b) {
        0
    } else if f64_order_key(b) < 0 {
        0
    } else if f64_order_key(b) > f64_order_key(F64_ONE_BITS) {
        F64_ONE_BITS
    } else {
        b
    }
}

/// Clamps an `f64` (by bit pattern) to 0..1.
pub fn clamp01(b: u64) -> (res: u64)
    ensures
        res == clamp01_bits(b),
{
    let finite = (b % 0x8000_0000_0000_0000) / 0x10_0000_0000_0000 != 2047;
    assert(((b as int / crate::json::two_pow_52() as int) % 2048 != 2047) == finite);
    if !finite {
        0
    } else if b >= 0x8000_0000_0000_0000 && b != 0x8000_0000_0000_0000 {
        0
    } else if b < 0x8000_0000_0000_0000 && b > F64_ONE_BITS {
        F64_ONE_BITS
    } else {
        b
    }
}

/// The number a DSP value reads as (`as_f64().unwrap_or(0.0)`).
pub open spec fn number_bits_or_zero(v: JsonValue) -> u64 {
    match v.spec_as_f64_bits() {
        Some(b) => b,
        None => 0,
    }
}

/// A finite float as `json!` renders it.
pub open spec fn float_json(b: u64) -> JsonValue {
    JsonValue::Number(JsonNumber { kind: NumberKind::Float, f64_bits: b })
}

/// The DSP cache, the bare-field updates and the writes, as a handler builds them up.
pub struct DspState {
    pub dsp: Seq<(Seq<char>, JsonValue)>,
    pub bare: Seq<(Seq<char>, JsonValue)>,
    pub writes: Seq<(Seq<char>, JsonValue, MsFormat)>,
}

/// One touched field: stored under `key`, reported, and written to `<suffix>` of each
/// channel.
pub open spec fn touch(st: DspState, chs: Seq<usize>, key: Seq<char>, v: JsonValue, suffix: Seq<char>, wv: JsonValue, format: MsFormat) -> DspState {
    DspState {
        dsp: upsert(st.dsp, key, v),
        bare: st.bare.push((key, v)),
        writes: st.writes + channel_writes(chs, suffix, wv, format),
    }
}

/// A switch field, if present: stored and reported as a boolean, written as 1/0 (`val`).
pub open spec fn touch_switch(st: DspState, parsed: JsonValue, chs: Seq<usize>, key: Seq<char>, suffix: Seq<char>) -> DspState {
    match dsp_value_of(parsed.spec_get(key)) {
        Some(v) => touch(st, chs, key, JsonValue::Bool(flag_of(v)), suffix, switch_json(flag_of(v)), MsFormat::Val),
        None => st,
    }
}

/// A continuous field, if present: clamped to 0..1, stored, reported and written (`norm`).
pub open spec fn touch_level(st: DspState, parsed: JsonValue, chs: Seq<usize>, key: Seq<char>, suffix: Seq<char>) -> DspState {
    match dsp_value_of(parsed.spec_get(key)) {
        Some(v) => {
            let n = clamp01_bits(number_bits_or_zero(v));
            touch(st, chs, key, float_json(n), suffix, float_json(n), MsFormat::Norm)
        },
        None => st,
    }
}

/// The clamped value of a continuous field, if present.
pub open spec fn level_input(parsed: JsonValue, key: Seq<char>) -> Option<u64> {
    match dsp_value_of(parsed.spec_get(key)) {
        Some(v) => Some(clamp01_bits(number_bits_or_zero(v))),
        None => None,
    }
}

/// A slot whose DSP sections are bridged: Input, Bus or Main.
pub open spec fn has_dsp(kind: LayoutSlotKind) -> bool {
    kind == LayoutSlotKind::Input || kind == LayoutSlotKind::Bus || kind == LayoutSlotKind::Main
}

/// The value a DSP field carries: `{value: ...}` unwrapped (see [`dsp_value_of`]).
pub fn c1_dsp_field<'a>(parsed: &'a JsonValue, key: &str) -> (res: Option<&'a JsonValue>)
    ensures
        match res {
            Some(v) => dsp_value_of(parsed.spec_get(key@)) == Some(*v),
            None => dsp_value_of(parsed.spec_get(key@)) is None,
        },
{
    match parsed.get(key) {
        None => None,
        Some(v) => match v {
            JsonValue::Object(_) => match v.get("value") {
                Some(inner) => Some(inner),
                None => Some(v),
            },
            _ => Some(v),
        },
    }
}

fn number_or_zero(v: &JsonValue) -> (res: u64)
    ensures
        res == number_bits_or_zero(*v),
{
    match v.as_f64_bits() {
        Some(b) => b,
        None => 0,
    }
}

/// The track's DSP cache, the bare updates and the writes, as a [`DspState`].
pub open spec fn state_of(track: TrackInfo, bare: Seq<(String, JsonValue)>, writes: Seq<MsWrite>) -> DspState {
    DspState { dsp: pairs_view(track.dsp_fields@), bare: pairs_view(bare), writes: writes_view(writes) }
}

fn touch_exec(
    track: &mut TrackInfo,
    bare: &mut Vec<(String, JsonValue)>,
    writes: &mut Vec<MsWrite>,
    slot: &LayoutSlot,
    key: &str,
    v: JsonValue,
    suffix: &str,
    wv: JsonValue,
    format: MsFormat,
)
    requires
        is_scalar(v),
        is_scalar(wv),
    ensures
        *final(track) == (TrackInfo { dsp_fields: final(track).dsp_fields, ..*old(track) }),
        state_of(*final(track), final(bare)@, final(writes)@)
            == touch(state_of(*old(track), old(bare)@, old(writes)@), slot.ms_channels@, key@, v, suffix@, wv, format),
{
    let copy = crate::json::copy_json(&v);
    upsert_text_key(&mut track.dsp_fields, owned(key), copy);
    let ghost before = bare@;
    bare.push((owned(key), v));
    assert(pairs_view(bare@) =~= pairs_view(before).push((key@, v)));
    push_writes_for_channels(writes, slot, suffix, wv, format);
}

fn touch_switch_exec(
    parsed: &JsonValue,
    track: &mut TrackInfo,
    bare: &mut Vec<(String, JsonValue)>,
    writes: &mut Vec<MsWrite>,
    slot: &LayoutSlot,
    key: &str,
    suffix: &str,
)
    ensures
        *final(track) == (TrackInfo { dsp_fields: final(track).dsp_fields, ..*old(track) }),
        state_of(*final(track), final(bare)@, final(writes)@)
            == touch_switch(state_of(*old(track), old(bare)@, old(writes)@), *parsed, slot.ms_channels@, key@, suffix@),
{
    if let Some(v) = c1_dsp_field(parsed, key) {
        let next = flag_value(v);
        let sw = JsonValue::Number(i64_number(if next { 1 } else { 0 }));
        touch_exec(track, bare, writes, slot, key, JsonValue::Bool(next), suffix, sw, MsFormat::Val);
    }
}

fn touch_level_exec(
    parsed: &JsonValue,
    track: &mut TrackInfo,
    bare: &mut Vec<(String, JsonValue)>,
    writes: &mut Vec<MsWrite>,
    slot: &LayoutSlot,
    key: &str,
    suffix: &str,
)
    ensures
        *final(track) == (TrackInfo { dsp_fields: final(track).dsp_fields, ..*old(track) }),
        state_of(*final(track), final(bare)@, final(writes)@)
            == touch_level(state_of(*old(track), old(bare)@, old(writes)@), *parsed, slot.ms_channels@, key@, suffix@),
{
    if let Some(v) = c1_dsp_field(parsed, key) {
        let n = clamp01(number_or_zero(v));
        let a = JsonValue::Number(JsonNumber { kind: NumberKind::Float, f64_bits: n });
        let b = JsonValue::Number(JsonNumber { kind: NumberKind::Float, f64_bits: n });
        touch_exec(track, bare, writes, slot, key, a, suffix, b, MsFormat::Norm);
    }
}

/// The Filter section's effect: low-cut switch (`preamp.filter.0.on`), low-cut frequency
/// (`preamp.filter.0.freq`), input gain (`headamp.gain`, written in dB: `gain_db_bits`),
/// phase invert (`preamp.inv`), in that order.
pub open spec fn filter_effect(st: DspState, parsed: JsonValue, chs: Seq<usize>, gain_db_bits: u64) -> DspState {
    let st1 = touch_switch(st, parsed, chs, "filterLcOn"@, "preamp.filter.0.on"@);
    let st2 = touch_level(st1, parsed, chs, "filterLcFreq"@, "preamp.filter.0.freq"@);
    let st3 = match level_input(parsed, "filterPreGain"@) {
        Some(n) => touch(st2, chs, "filterPreGain"@, float_json(n), "headamp.gain"@, pan_json(gain_db_bits), MsFormat::Val),
        None => st2,
    };
    touch_switch(st3, parsed, chs, "filterPhaseInvert"@, "preamp.inv"@)
}

/// `r` is what `gain_db` gives for the input gain, when there is one.
pub open spec fn gain_ok<F: Fn(u64) -> u64>(gain_db: F, input: Option<u64>, r: u64) -> bool {
    input matches Some(n) ==> gain_db.ensures((n,), r)
}

/// Handles Console 1 Filter updates (see [`filter_effect`]); `gain_db` maps the clamped
/// 0..1 input gain onto its dB value. Slots other than Input, Bus and Main: nothing.
pub fn handle_midi_filter_update<F: Fn(u64) -> u64>(
    parsed: &JsonValue,
    slot: &LayoutSlot,
    track: &mut TrackInfo,
    writes: &mut Vec<MsWrite>,
    gain_db: F,
) -> (res: Vec<(String, JsonValue)>)
    requires
        forall|x: u64| gain_db.requires((x,)),
    ensures
        !has_dsp(slot.kind) ==> *final(track) == *old(track) && final(writes)@ == old(writes)@ && res@.len() == 0,
        has_dsp(slot.kind) ==> {
            &&& *final(track) == (TrackInfo { dsp_fields: final(track).dsp_fields, ..*old(track) })
            &&& exists|r: u64| {
                &&& #[trigger] gain_ok(gain_db, level_input(*parsed, "filterPreGain"@), r)
                &&& state_of(*final(track), res@, final(writes)@)
                    == filter_effect(state_of(*old(track), Seq::empty(), old(writes)@), *parsed, slot.ms_channels@, r)
            }
        },
{
    let mut bare: Vec<(String, JsonValue)> = Vec::new();
    if !(slot.kind == LayoutSlotKind::Input || slot.kind == LayoutSlotKind::Bus || slot.kind == LayoutSlotKind::Main) {
        return bare;
    }
    assert(pairs_view(bare@) =~= Seq::<(Seq<char>, JsonValue)>::empty());
    let ghost s0 = state_of(*old(track), Seq::empty(), old(writes)@);
    touch_switch_exec(parsed, track, &mut bare, writes, slot, "filterLcOn", "preamp.filter.0.on");
    touch_level_exec(parsed, track, &mut bare, writes, slot, "filterLcFreq", "preamp.filter.0.freq");
    let ghost s2 = state_of(*track, bare@, writes@);
    let mut r: u64 = 0;
    if let Some(v) = c1_dsp_field(parsed, "filterPreGain") {
        let n = clamp01(number_or_zero(v));
        r = gain_db(n);
        let db = if (r % 0x8000_0000_0000_0000) / 0x10_0000_0000_0000 != 2047 {
            JsonValue::Number(JsonNumber { kind: NumberKind::Float, f64_bits: r })
        } else {
            JsonValue::Null
        };
        assert(((r as int / crate::json::two_pow_52() as int) % 2048 != 2047) == ((r % 0x8000_0000_0000_0000) / 0x10_0000_0000_0000 != 2047));
        assert(db == pan_json(r));
        let a = JsonValue::Number(JsonNumber { kind: NumberKind::Float, f64_bits: n });
        touch_exec(track, &mut bare, writes, slot, "filterPreGain", a, "headamp.gain", db, MsFormat::Val);
    }
    let ghost s3 = state_of(*track, bare@, writes@);
    assert(s3 == match level_input(*parsed, "filterPreGain"@) {
        Some(n) => touch(s2, slot.ms_channels@, "filterPreGain"@, float_json(n), "headamp.gain"@, pan_json(r), MsFormat::Val),
        None => s2,
    });
    touch_switch_exec(parsed, track, &mut bare, writes, slot, "filterPhaseInvert", "preamp.inv");
    assert(gain_ok(gain_db, level_input(*parsed, "filterPreGain"@), r));
    assert(state_of(*track, bare@, writes@) == filter_effect(s0, *parsed, slot.ms_channels@, r));
    bare
}

/// `eq<band+1>On`.
pub open spec fn eq_on_key(band: int) -> Seq<char> {
    "eq"@ + seq![digit_char(band + 1)] + "On"@
}

/// `eq<band+1><name>`.
pub open spec fn eq_field_key(band: int, name: Seq<char>) -> Seq<char> {
    "eq"@ + seq![digit_char(band + 1)] + name
}

/// `peq.bands.<band>.<name>`.
pub open spec fn eq_band_path(band: int, name: Seq<char>) -> Seq<char> {
    "peq.bands."@ + seq![digit_char(band)] + "."@ + name
}

/// The EQ section's effect for bands `0..n`: per band its switch (the one shared
/// `peq.on`), frequency, gain and Q (`peq.bands.<b>.*`, `norm`) and type, whose index is
/// `type_index[b]` (`val`).
pub open spec fn eq_effect(st: DspState, parsed: JsonValue, chs: Seq<usize>, type_index: Seq<usize>, n: int) -> DspState
    decreases n,
{
    if n <= 0 {
        st
    } else {
        let b = n - 1;
        let s0 = eq_effect(st, parsed, chs, type_index, b);
        let s1 = touch_switch(s0, parsed, chs, eq_on_key(b), "peq.on"@);
        let s2 = touch_level(s1, parsed, chs, eq_field_key(b, "Freq"@), eq_band_path(b, "freq"@));
        let s3 = touch_level(s2, parsed, chs, eq_field_key(b, "Gain"@), eq_band_path(b, "gain"@));
        let s4 = touch_level(s3, parsed, chs, eq_field_key(b, "Q"@), eq_band_path(b, "q"@));
        match dsp_value_of(parsed.spec_get(eq_field_key(b, "Type"@))) {
            Some(_) => touch(s4, chs, eq_field_key(b, "Type"@), JsonValue::Number(int_json(type_index[b] as int)),
                eq_band_path(b, "type"@), JsonValue::Number(int_json(type_index[b] as int)), MsFormat::Val),
            None => s4,
        }
    }
}

fn band_text(prefix: &str, d: usize, suffix: &str) -> (res: String)
    requires
        d < 10,
    ensures
        res@ == prefix@ + seq![digit_char(d as int)] + suffix@,
{
    let mut out = chars_of(prefix);
    out.push(((0x30 + d) as u8) as char);
    let s = chars_of(suffix);
    append_chars(&mut out, s.as_slice());
    assert(digit_char(d as int) == ((0x30 + d) as u8) as char);
    let r = string_from_chars(out.as_slice());
    assert(r@ =~= prefix@ + seq![digit_char(d as int)] + suffix@);
    r
}

/// `r` holds, per band, what `type_index` gives for the band's type value, when present.
pub open spec fn types_ok<F: Fn(u64) -> usize>(type_index: F, parsed: JsonValue, r: Seq<usize>) -> bool {
    &&& r.len() == 4
    &&& forall|b: int| 0 <= b < 4 ==> (dsp_value_of(parsed.spec_get(eq_field_key(b, "Type"@))) matches Some(v)
        ==> type_index.ensures((number_bits_or_zero(v),), #[trigger] r[b]))
}

/// Handles Console 1 EQ updates for the four bands (see [`eq_effect`]); `type_index`
/// maps a clamped-or-not normalized EQ type (its `f64` bits, 0 when not a number) onto
/// Mixing Station's type index. Slots other than Input, Bus and Main: nothing.
pub fn handle_midi_eq_update<F: Fn(u64) -> usize>(
    parsed: &JsonValue,
    slot: &LayoutSlot,
    track: &mut TrackInfo,
    writes: &mut Vec<MsWrite>,
    type_index: F,
) -> (res: Vec<(String, JsonValue)>)
    requires
        forall|x: u64| type_index.requires((x,)),
    ensures
        !has_dsp(slot.kind) ==> *final(track) == *old(track) && final(writes)@ == old(writes)@ && res@.len() == 0,
        has_dsp(slot.kind) ==> {
            &&& *final(track) == (TrackInfo { dsp_fields: final(track).dsp_fields, ..*old(track) })
            &&& exists|r: Seq<usize>| {
                &&& #[trigger] types_ok(type_index, *parsed, r)
                &&& state_of(*final(track), res@, final(writes)@)
                    == eq_effect(state_of(*old(track), Seq::empty(), old(writes)@), *parsed, slot.ms_channels@, r, 4)
            }
        },
{
    let mut bare: Vec<(String, JsonValue)> = Vec::new();
    if !(slot.kind == LayoutSlotKind::Input || slot.kind == LayoutSlotKind::Bus || slot.kind == LayoutSlotKind::Main) {
        return bare;
    }
    assert(pairs_view(bare@) =~= Seq::<(Seq<char>, JsonValue)>::empty());
    let ghost start = state_of(*old(track), Seq::empty(), old(writes)@);
    let ghost mut r: Seq<usize> = seq![0usize, 0usize, 0usize, 0usize];
    let mut b: usize = 0;
    while b < 4
        invariant
            b <= 4,
            r.len() == 4,
            forall|x: u64| type_index.requires((x,)),
            *track == (TrackInfo { dsp_fields: track.dsp_fields, ..*old(track) }),
            forall|k: int| 0 <= k < b ==> (dsp_value_of(parsed.spec_get(eq_field_key(k, "Type"@))) matches Some(v)
                ==> type_index.ensures((number_bits_or_zero(v),), #[trigger] r[k])),
            state_of(*track, bare@, writes@) == eq_effect(start, *parsed, slot.ms_channels@, r, b as int),
        decreases 4 - b,
    {
        let on_key = band_text("eq", b + 1, "On");
        touch_switch_exec(parsed, track, &mut bare, writes, slot, on_key.as_str(), "peq.on");
        let k_freq = band_text("eq", b + 1, "Freq");
        let p_freq = band_text("peq.bands.", b, ".freq");
        touch_level_exec(parsed, track, &mut bare, writes, slot, k_freq.as_str(), p_freq.as_str());
        let k_gain = band_text("eq", b + 1, "Gain");
        let p_gain = band_text("peq.bands.", b, ".gain");
        touch_level_exec(parsed, track, &mut bare, writes, slot, k_gain.as_str(), p_gain.as_str());
        let k_q = band_text("eq", b + 1, "Q");
        let p_q = band_text("peq.bands.", b, ".q");
        touch_level_exec(parsed, track, &mut bare, writes, slot, k_q.as_str(), p_q.as_str());
        let k_type = band_text("eq", b + 1, "Type");
        let p_type = band_text("peq.bands.", b, ".type");
        let ghost before = state_of(*track, bare@, writes@);
        let ghost old_r = r;
        if let Some(v) = c1_dsp_field(parsed, k_type.as_str()) {
            let idx = type_index(number_or_zero(v));
            proof {
                r = r.update(b as int, idx);
            }
            let n1 = i64_number_usize(idx);
            let n2 = i64_number_usize(idx);
            touch_exec(track, &mut bare, writes, slot, k_type.as_str(), JsonValue::Number(n1), p_type.as_str(),
                JsonValue::Number(n2), MsFormat::Val);
        }
        proof {
            reveal_strlit(".");
            reveal_strlit(".freq");
            reveal_strlit("freq");
            reveal_strlit(".gain");
            reveal_strlit("gain");
            reveal_strlit(".q");
            reveal_strlit("q");
            reveal_strlit(".type");
            reveal_strlit("type");
            assert(("peq.bands."@ + seq![digit_char(b as int)] + ".freq"@) =~= eq_band_path(b as int, "freq"@));
            assert(("peq.bands."@ + seq![digit_char(b as int)] + ".gain"@) =~= eq_band_path(b as int, "gain"@));
            assert(("peq.bands."@ + seq![digit_char(b as int)] + ".q"@) =~= eq_band_path(b as int, "q"@));
            assert(("peq.bands."@ + seq![digit_char(b as int)] + ".type"@) =~= eq_band_path(b as int, "type"@));
            lemma_eq_effect_prefix(start, *parsed, slot.ms_channels@, old_r, r, b as int);
        }
        b = b + 1;
    }
    assert(types_ok(type_index, *parsed, r));
    bare
}

/// The EQ effect of the first `n` bands depends only on their type indices.
proof fn lemma_eq_effect_prefix(st: DspState, parsed: JsonValue, chs: Seq<usize>, r1: Seq<usize>, r2: Seq<usize>, n: int)
    requires
        0 <= n <= r1.len(),
        r1.len() == r2.len(),
        forall|k: int| 0 <= k < n ==> r1[k] == r2[k],
    ensures
        eq_effect(st, parsed, chs, r1, n) == eq_effect(st, parsed, chs, r2, n),
    decreases n,
{
    if n > 0 {
        lemma_eq_effect_prefix(st, parsed, chs, r1, r2, n - 1);
    }
}

/// The JSON number of an index (`json!(usize)`).
fn i64_number_usize(i: usize) -> (res: JsonNumber)
    ensures
        res == int_json(i as int),
{
    crate::json::u64_number(i as u64)
}

/// The Compressor's continuous fields (Console 1 name, Mixing Station `dyn.*` name), in
/// the order they are handled.
pub open spec fn comp_fields() -> Seq<(Seq<char>, Seq<char>)> {
    seq![
        ("compRatio"@, "ratio"@),
        ("compAttack"@, "attack"@),
        ("compRelease"@, "release"@),
        ("compMakeup"@, "gain"@),
        ("compComp"@, "thr"@),
        ("compKnee"@, "knee"@),
        ("compWetdry"@, "mix"@),
    ]
}

/// The continuous compressor fields `0..n` of [`comp_fields`], each to `dyn.<name>`.
pub open spec fn comp_levels_effect(st: DspState, parsed: JsonValue, chs: Seq<usize>, n: int) -> DspState
    decreases n,
{
    if n <= 0 {
        st
    } else {
        let f = comp_fields()[n - 1];
        touch_level(comp_levels_effect(st, parsed, chs, n - 1), parsed, chs, f.0, "dyn."@ + f.1)
    }
}

/// Handles Console 1 Compressor updates: the switch (`dyn.on`, `val`), then the
/// continuous fields of [`comp_fields`]. Slots other than Input, Bus and Main: nothing.
pub fn handle_midi_comp_update(
    parsed: &JsonValue,
    slot: &LayoutSlot,
    track: &mut TrackInfo,
    writes: &mut Vec<MsWrite>,
) -> (res: Vec<(String, JsonValue)>)
    ensures
        !has_dsp(slot.kind) ==> *final(track) == *old(track) && final(writes)@ == old(writes)@ && res@.len() == 0,
        has_dsp(slot.kind) ==> {
            &&& *final(track) == (TrackInfo { dsp_fields: final(track).dsp_fields, ..*old(track) })
            &&& state_of(*final(track), res@, final(writes)@) == comp_levels_effect(
                touch_switch(state_of(*old(track), Seq::empty(), old(writes)@), *parsed, slot.ms_channels@, "compOn"@, "dyn.on"@),
                *parsed, slot.ms_channels@, 7)
        },
{
    let mut bare: Vec<(String, JsonValue)> = Vec::new();
    if !(slot.kind == LayoutSlotKind::Input || slot.kind == LayoutSlotKind::Bus || slot.kind == LayoutSlotKind::Main) {
        return bare;
    }
    assert(pairs_view(bare@) =~= Seq::<(Seq<char>, JsonValue)>::empty());
    touch_switch_exec(parsed, track, &mut bare, writes, slot, "compOn", "dyn.on");
    let ghost after_on = state_of(*track, bare@, writes@);
    let c1_names: [&str; 7] = ["compRatio", "compAttack", "compRelease", "compMakeup", "compComp", "compKnee", "compWetdry"];
    let ms_paths: [&str; 7] = ["dyn.ratio", "dyn.attack", "dyn.release", "dyn.gain", "dyn.thr", "dyn.knee", "dyn.mix"];
    proof {
        reveal_strlit("dyn.");
        reveal_strlit("ratio");
        reveal_strlit("attack");
        reveal_strlit("release");
        reveal_strlit("gain");
        reveal_strlit("thr");
        reveal_strlit("knee");
        reveal_strlit("mix");
        reveal_strlit("dyn.ratio");
        reveal_strlit("dyn.attack");
        reveal_strlit("dyn.release");
        reveal_strlit("dyn.gain");
        reveal_strlit("dyn.thr");
        reveal_strlit("dyn.knee");
        reveal_strlit("dyn.mix");
        assert(forall|k: int| 0 <= k < 7 ==> #[trigger] c1_names@[k]@ == comp_fields()[k].0);
        assert(forall|k: int| 0 <= k < 7 ==> #[trigger] ms_paths@[k]@ =~= "dyn."@ + comp_fields()[k].1);
    }
    let mut i: usize = 0;
    while i < 7
        invariant
            i <= 7,
            forall|k: int| 0 <= k < 7 ==> #[trigger] c1_names@[k]@ == comp_fields()[k].0,
            forall|k: int| 0 <= k < 7 ==> #[trigger] ms_paths@[k]@ == "dyn."@ + comp_fields()[k].1,
            *track == (TrackInfo { dsp_fields: track.dsp_fields, ..*old(track) }),
            state_of(*track, bare@, writes@) == comp_levels_effect(after_on, *parsed, slot.ms_channels@, i as int),
        decreases 7 - i,
    {
        touch_level_exec(parsed, track, &mut bare, writes, slot, c1_names[i], ms_paths[i]);
        i = i + 1;
    }
    bare
}


/// A `dyn.<name>` path is routed by `<name>` alone: to the compressor parameter of that
/// name, and ignored when there is none.
pub proof fn lemma_dyn_path_routes_by_name(name: Seq<char>)
    ensures
        route_of("dyn."@ + name) == match crate::ms_param_apply::dyn_field_of(name) {
            Some(d) => ParamRoute::Dyn(d),
            None => ParamRoute::Ignored,
        },
{
    let path = "dyn."@ + name;
    reveal_strlit("dyn.");
    assert(path[0] == 'd');
    reveal_strlit("cfg.name");
    assert("cfg.name"@[0] != 'd');
    reveal_strlit("cfg.color");
    assert("cfg.color"@[0] != 'd');
    reveal_strlit("mix.lvl");
    assert("mix.lvl"@[0] != 'd');
    reveal_strlit("mix.on");
    assert("mix.on"@[0] != 'd');
    reveal_strlit("solo");
    assert("solo"@[0] != 'd');
    reveal_strlit("mix.pan");
    assert("mix.pan"@[0] != 'd');
    reveal_strlit("info.isActive");
    assert("info.isActive"@[0] != 'd');
    reveal_strlit("selected");
    assert("selected"@[0] != 'd');
    reveal_strlit("preamp.filter.0.on");
    assert("preamp.filter.0.on"@[0] != 'd');
    reveal_strlit("preamp.filter.0.freq");
    assert("preamp.filter.0.freq"@[0] != 'd');
    reveal_strlit("headamp.gain");
    assert("headamp.gain"@[0] != 'd');
    reveal_strlit("preamp.inv");
    assert("preamp.inv"@[0] != 'd');
    reveal_strlit("peq.on");
    assert("peq.on"@[0] != 'd');
    reveal_strlit("mix.sends.");
    assert("mix.sends."@[0] != 'd');
    reveal_strlit("peq.bands.");
    assert("peq.bands."@[0] != 'd');
    assert(path.subrange(0, 4) =~= "dyn."@);
    assert(path.subrange(4, path.len() as int) =~= name);
    assert(!occurs_at(path, "mix.sends."@, 0)) by {
        if occurs_at(path, "mix.sends."@, 0) {
            assert(path.subrange(0, 10)[0] == path[0]);
        }
    }
    assert(!occurs_at(path, "peq.bands."@, 0)) by {
        if occurs_at(path, "peq.bands."@, 0) {
            assert(path.subrange(0, 10)[0] == path[0]);
        }
    }
}

/// Each continuous compressor field's Mixing Station name names the compressor parameter
/// whose cache field is that Console 1 field.
proof fn lemma_comp_field_names(k: int)
    requires
        0 <= k < 7,
    ensures
        crate::ms_param_apply::dyn_field_of(comp_fields()[k].1) matches Some(f) && f != crate::ms_param_apply::DynField::On
            && crate::ms_param_apply::dyn_key(f) == comp_fields()[k].0,
{
    reveal_strlit("on");
    reveal_strlit("ratio");
    reveal_strlit("attack");
    reveal_strlit("release");
    reveal_strlit("gain");
    reveal_strlit("thr");
    reveal_strlit("knee");
    reveal_strlit("mix");
    if k < 0 {
    } else if k == 0 {
        assert(comp_fields()[k].1 == "ratio"@);
        assert("ratio"@ != "on"@) by { assert("ratio"@.len() != "on"@.len()); }
        assert(crate::ms_param_apply::dyn_field_of(comp_fields()[k].1) == Some(crate::ms_param_apply::DynField::Ratio));
    } else if k == 1 {
        assert(comp_fields()[k].1 == "attack"@);
        assert("attack"@ != "on"@) by { assert("attack"@.len() != "on"@.len()); }
        assert("attack"@ != "ratio"@) by { assert("attack"@.len() != "ratio"@.len()); }
        assert(crate::ms_param_apply::dyn_field_of(comp_fields()[k].1) == Some(crate::ms_param_apply::DynField::Attack));
    } else if k == 2 {
        assert(comp_fields()[k].1 == "release"@);
        assert("release"@ != "on"@) by { assert("release"@.len() != "on"@.len()); }
        assert("release"@ != "ratio"@) by { assert("release"@.len() != "ratio"@.len()); }
        assert("release"@ != "attack"@) by { assert("release"@.len() != "attack"@.len()); }
        assert(crate::ms_param_apply::dyn_field_of(comp_fields()[k].1) == Some(crate::ms_param_apply::DynField::Release));
    } else if k == 3 {
        assert(comp_fields()[k].1 == "gain"@);
        assert("gain"@ != "on"@) by { assert("gain"@.len() != "on"@.len()); }
        assert("gain"@ != "ratio"@) by { assert("gain"@.len() != "ratio"@.len()); }
        assert("gain"@ != "attack"@) by { assert("gain"@.len() != "attack"@.len()); }
        assert("gain"@ != "release"@) by { assert("gain"@.len() != "release"@.len()); }
        assert(crate::ms_param_apply::dyn_field_of(comp_fields()[k].1) == Some(crate::ms_param_apply::DynField::Gain));
    } else if k == 4 {
        assert(comp_fields()[k].1 == "thr"@);
        assert("thr"@ != "on"@) by { assert("thr"@.len() != "on"@.len()); }
        assert("thr"@ != "ratio"@) by { assert("thr"@.len() != "ratio"@.len()); }
        assert("thr"@ != "attack"@) by { assert("thr"@.len() != "attack"@.len()); }
        assert("thr"@ != "release"@) by { assert("thr"@.len() != "release"@.len()); }
        assert("thr"@ != "gain"@) by { assert("thr"@.len() != "gain"@.len()); }
        assert(crate::ms_param_apply::dyn_field_of(comp_fields()[k].1) == Some(crate::ms_param_apply::DynField::Thr));
    } else if k == 5 {
        assert(comp_fields()[k].1 == "knee"@);
        assert("knee"@ != "on"@) by { assert("knee"@.len() != "on"@.len()); }
        assert("knee"@ != "ratio"@) by { assert("knee"@.len() != "ratio"@.len()); }
        assert("knee"@ != "attack"@) by { assert("knee"@.len() != "attack"@.len()); }
        assert("knee"@ != "release"@) by { assert("knee"@.len() != "release"@.len()); }
        assert("knee"@ != "gain"@) by { assert("knee"@[0] != "gain"@[0]); }
        assert("knee"@ != "thr"@) by { assert("knee"@.len() != "thr"@.len()); }
        assert(crate::ms_param_apply::dyn_field_of(comp_fields()[k].1) == Some(crate::ms_param_apply::DynField::Knee));
    } else if k == 6 {
        assert(comp_fields()[k].1 == "mix"@);
        assert("mix"@ != "on"@) by { assert("mix"@.len() != "on"@.len()); }
        assert("mix"@ != "ratio"@) by { assert("mix"@.len() != "ratio"@.len()); }
        assert("mix"@ != "attack"@) by { assert("mix"@.len() != "attack"@.len()); }
        assert("mix"@ != "release"@) by { assert("mix"@.len() != "release"@.len()); }
        assert("mix"@ != "gain"@) by { assert("mix"@.len() != "gain"@.len()); }
        assert("mix"@ != "thr"@) by { assert("mix"@[0] != "thr"@[0]); }
        assert("mix"@ != "knee"@) by { assert("mix"@.len() != "knee"@.len()); }
        assert(crate::ms_param_apply::dyn_field_of(comp_fields()[k].1) == Some(crate::ms_param_apply::DynField::Mix));
    }
}

/// The compressor fields round trip: the `dyn.<name>` path that a continuous Console 1
/// compressor field is written to, applied back from Mixing Station in `norm` format,
/// updates that same Console 1 field and reports it as a bare update with the value, and
/// changes nothing else on the track.
pub proof fn lemma_comp_paths_route_back(
    k: int,
    old: TrackInfo,
    new: TrackInfo,
    res: MsParamApplyResult,
    slot: LayoutSlot,
    bus_channel_start: usize,
    value: JsonValue,
    mapping: Option<Map<usize, usize>>,
    input_gain_norm_bits: u64,
)
    requires
        0 <= k < 7,
        ms_param_applied(old, new, res, route_of("dyn."@ + comp_fields()[k].1), slot, bus_channel_start, value,
            Some(MsValueFormat::Norm), mapping, input_gain_norm_bits),
    ensures
        res.changed@.len() == 0,
        res.bare_field_updates@.len() == 1,
        res.bare_field_updates@[0].0@ == comp_fields()[k].0,
        json_eq(res.bare_field_updates@[0].1, value),
        new == (TrackInfo { dsp_fields: new.dsp_fields, ..old }),
{
    lemma_dyn_path_routes_by_name(comp_fields()[k].1);
    lemma_comp_field_names(k);
    let f = crate::ms_param_apply::dyn_field_of(comp_fields()[k].1)->Some_0;
    assert(route_of("dyn."@ + comp_fields()[k].1) == ParamRoute::Dyn(f));
}

} // verus!
