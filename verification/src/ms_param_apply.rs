//! Applies a single Mixing Station parameter update onto a cached Console 1 track.
//!
//! Track-batch fields that actually change are reported in `changed` (for the update
//! queue); Filter/EQ/Compressor cache updates are reported in `bare_field_updates` (for the
//! bare-field queue) and never appear in `changed`.

use crate::channel_data_message::{all_ascii_digits, digits_value};
use crate::json::{JsonNumber, JsonValue, NumberKind, copy_json, f64_eq, f64_equal, f64_is_finite, int_json, i64_number, json_eq, json_equal, lemma_json_eq_refl, lemma_json_eq_sym, lemma_json_eq_trans};
use crate::keyed::{key_pos, lemma_key_pos, pairs_view, upsert, upsert_text_key};
use crate::midi_color_utils::{ms_color_to_softube_color_int, softube_color};
use crate::send_mapping::SendMapping;
use crate::text::{chars_of, digit_char, find_char, first_index_of, occurs_at, occurs_at_exec, owned, str_eq, string_from_chars, sub_chars, trim_seq, trim_str};
use crate::track_cache::{TrackInfo, default_name_for_slot, default_slot_name, nameable_slot};
use crate::track_layout::LayoutSlot;
use crate::value_coercion::{is_negative_infinity_db, is_silence_db};
use std::collections::HashMap;
use vstd::prelude::*;
use vstd::string::*;

verus! {

/// The format a Mixing Station value arrived in.
#[derive(Debug, Clone, Copy, PartialEq, Eq, Structural)]
pub enum MsValueFormat {
    Val,
    Norm,
}

/// A compressor (`dyn.*`) parameter.
#[derive(Debug, Clone, Copy, PartialEq, Eq, Structural)]
pub enum DynField {
    On,
    Ratio,
    Attack,
    Release,
    Gain,
    Thr,
    Knee,
    Mix,
}

/// An EQ band (`peq.bands.<n>.*`) parameter.
#[derive(Debug, Clone, Copy, PartialEq, Eq, Structural)]
pub enum EqBandField {
    Freq,
    Gain,
    Q,
    Type,
}

/// What a Mixing Station parameter path addresses.
#[derive(Debug, Clone, Copy, PartialEq, Eq, Structural)]
pub enum ParamRoute {
    Name,
    Color,
    Volume,
    Mute,
    Solo,
    Pan,
    IsActive,
    Selected,
    FilterLcOn,
    FilterLcFreq,
    HeadampGain,
    PhaseInvert,
    PeqOn,
    /// `mix.sends.<index>.lvl` (`level`) or `mix.sends.<index>.on`.
    Send { ms_send_index: usize, level: bool },
    /// `peq.bands.<band>.<field>`, band 0..3.
    EqBand { band: usize, field: EqBandField },
    Dyn(DynField),
    /// Anything else: no effect.
    Ignored,
}

/// The digits of an unsigned number's text, after an optional leading `+`.
pub open spec fn unsigned_digits(s: Seq<char>) -> Seq<char> {
    if s.len() > 0 && s[0] == '+' { s.drop_first() } else { s }
}

/// The `usize` an unsigned decimal text parses to (std's `usize::from_str`): an optional
/// `+` and at least one ASCII digit, within range.
pub open spec fn parse_unsigned(s: Seq<char>) -> Option<nat> {
    let d = unsigned_digits(s);
    if d.len() > 0 && all_ascii_digits(d) && digits_value(d) <= usize::MAX {
        Some(digits_value(d))
    } else {
        None
    }
}

/// Parses an unsigned decimal text as std's `usize::from_str` does.
pub fn parse_usize(v: &[char]) -> (res: Option<usize>)
    ensures
        match parse_unsigned(v@) {
            Some(n) => res == Some(n as usize),
            None => res is None,
        },
{
    let start: usize = if v.len() > 0 && v[0] == '+' { 1 } else { 0 };
    let d = sub_chars(v, start, v.len());
    assert(d@ == unsigned_digits(v@));
    if d.len() == 0 {
        return None;
    }
    let mut i: usize = 0;
    while i < d.len()
        invariant
            i <= d@.len(),
            d@ == unsigned_digits(v@),
            forall|k: int| 0 <= k < i ==> '0' <= #[trigger] d@[k] <= '9',
        decreases d.len() - i,
    {
        if d[i] < '0' || d[i] > '9' {
            assert(!('0' <= d@[i as int] <= '9'));
            assert(!all_ascii_digits(d@));
            return None;
        }
        i = i + 1;
    }
    let mut n: usize = 0;
    let mut overflow = false;
    let mut j: usize = 0;
    while j < d.len()
        invariant
            j <= d@.len(),
            all_ascii_digits(d@),
            !overflow ==> n as int == digits_value(d@.subrange(0, j as int)),
            overflow ==> digits_value(d@.subrange(0, j as int)) > usize::MAX,
        decreases d.len() - j,
    {
        let dig = (d[j] as u32 - '0' as u32) as usize;
        let ghost pre = d@.subrange(0, j as int);
        let ghost post = d@.subrange(0, j + 1);
        assert(post.drop_last() =~= pre);
        assert(post.last() == d@[j as int]);
        if !overflow {
            if n > (usize::MAX - dig) / 10 {
                overflow = true;
                assert(digits_value(post) > usize::MAX) by (nonlinear_arith)
                    requires
                        digits_value(post) == digits_value(pre) * 10 + dig,
                        digits_value(pre) == n,
                        n > (usize::MAX - dig) / 10,
                        0 <= dig <= 9,
                {
                }
            } else {
                assert(n * 10 + dig <= usize::MAX) by (nonlinear_arith)
                    requires
                        n <= (usize::MAX - dig) / 10,
                        0 <= dig <= 9,
                {
                }
                n = n * 10 + dig;
            }
        } else {
            assert(digits_value(post) > usize::MAX) by (nonlinear_arith)
                requires
                    digits_value(post) == digits_value(pre) * 10 + dig,
                    digits_value(pre) > usize::MAX,
                    0 <= dig <= 9,
            {
            }
        }
        j = j + 1;
    }
    assert(d@.subrange(0, d@.len() as int) =~= d@);
    if overflow {
        None
    } else {
        Some(n)
    }
}

/// The compressor parameter named `f`.
pub open spec fn dyn_field_of(f: Seq<char>) -> Option<DynField> {
    if f == "on"@ {
        Some(DynField::On)
    } else if f == "ratio"@ {
        Some(DynField::Ratio)
    } else if f == "attack"@ {
        Some(DynField::Attack)
    } else if f == "release"@ {
        Some(DynField::Release)
    } else if f == "gain"@ {
        Some(DynField::Gain)
    } else if f == "thr"@ {
        Some(DynField::Thr)
    } else if f == "knee"@ {
        Some(DynField::Knee)
    } else if f == "mix"@ {
        Some(DynField::Mix)
    } else {
        None
    }
}

/// The EQ band parameter named `f`.
pub open spec fn eq_field_of(f: Seq<char>) -> Option<EqBandField> {
    if f == "q"@ {
        Some(EqBandField::Q)
    } else if f == "freq"@ {
        Some(EqBandField::Freq)
    } else if f == "gain"@ {
        Some(EqBandField::Gain)
    } else if f == "type"@ {
        Some(EqBandField::Type)
    } else {
        None
    }
}

/// The route of `<index>.<lvl|on>` after `mix.sends.`.
pub open spec fn send_route(rest: Seq<char>) -> ParamRoute {
    match first_index_of(rest, '.') {
        None => ParamRoute::Ignored,
        Some(k) => match parse_unsigned(rest.subrange(0, k)) {
            None => ParamRoute::Ignored,
            Some(idx) => {
                let kind = rest.subrange(k + 1, rest.len() as int);
                if kind == "lvl"@ {
                    ParamRoute::Send { ms_send_index: idx as usize, level: true }
                } else if kind == "on"@ {
                    ParamRoute::Send { ms_send_index: idx as usize, level: false }
                } else {
                    ParamRoute::Ignored
                }
            },
        },
    }
}

/// The route of `<band>.<field>` after `peq.bands.`: bands 0..3 only.
pub open spec fn eq_band_route(rest: Seq<char>) -> ParamRoute {
    match first_index_of(rest, '.') {
        None => ParamRoute::Ignored,
        Some(k) => match parse_unsigned(rest.subrange(0, k)) {
            None => ParamRoute::Ignored,
            Some(band) => if band >= 4 {
                ParamRoute::Ignored
            } else {
                match eq_field_of(rest.subrange(k + 1, rest.len() as int)) {
                    Some(f) => ParamRoute::EqBand { band: band as usize, field: f },
                    None => ParamRoute::Ignored,
                }
            },
        },
    }
}

/// `s` with `prefix` removed, when it starts with it.
pub open spec fn strip_prefix(s: Seq<char>, prefix: Seq<char>) -> Option<Seq<char>> {
    if occurs_at(s, prefix, 0) { Some(s.subrange(prefix.len() as int, s.len() as int)) } else { None }
}

/// What the parameter path `path` addresses: the fixed paths first, then sends, EQ
/// bands and compressor parameters by prefix.
pub open spec fn route_of(path: Seq<char>) -> ParamRoute {
    if path == "cfg.name"@ {
        ParamRoute::Name
    } else if path == "cfg.color"@ {
        ParamRoute::Color
    } else if path == "mix.lvl"@ {
        ParamRoute::Volume
    } else if path == "mix.on"@ {
        ParamRoute::Mute
    } else if path == "solo"@ {
        ParamRoute::Solo
    } else if path == "mix.pan"@ {
        ParamRoute::Pan
    } else if path == "info.isActive"@ {
        ParamRoute::IsActive
    } else if path == "selected"@ {
        ParamRoute::Selected
    } else if path == "preamp.filter.0.on"@ {
        ParamRoute::FilterLcOn
    } else if path == "preamp.filter.0.freq"@ {
        ParamRoute::FilterLcFreq
    } else if path == "headamp.gain"@ {
        ParamRoute::HeadampGain
    } else if path == "preamp.inv"@ {
        ParamRoute::PhaseInvert
    } else if path == "peq.on"@ {
        ParamRoute::PeqOn
    } else if let Some(rest) = strip_prefix(path, "mix.sends."@) {
        send_route(rest)
    } else if let Some(rest) = strip_prefix(path, "peq.bands."@) {
        eq_band_route(rest)
    } else if let Some(f) = strip_prefix(path, "dyn."@) {
        match dyn_field_of(f) {
            Some(d) => ParamRoute::Dyn(d),
            None => ParamRoute::Ignored,
        }
    } else {
        ParamRoute::Ignored
    }
}

fn strip_prefix_exec(v: &[char], prefix: &str) -> (res: Option<Vec<char>>)
    ensures
        match strip_prefix(v@, prefix@) {
            Some(r) => res matches Some(x) && x@ == r,
            None => res is None,
        },
{
    let p = chars_of(prefix);
    if p.len() > v.len() || !occurs_at_exec(v, p.as_slice(), 0) {
        return None;
    }
    Some(sub_chars(v, p.len(), v.len()))
}

fn dyn_field_exec(f: &[char]) -> (res: Option<DynField>)
    ensures
        res == dyn_field_of(f@),
{
    let s = crate::text::string_from_chars(f);
    let t = s.as_str();
    if str_eq(t, "on") {
        Some(DynField::On)
    } else if str_eq(t, "ratio") {
        Some(DynField::Ratio)
    } else if str_eq(t, "attack") {
        Some(DynField::Attack)
    } else if str_eq(t, "release") {
        Some(DynField::Release)
    } else if str_eq(t, "gain") {
        Some(DynField::Gain)
    } else if str_eq(t, "thr") {
        Some(DynField::Thr)
    } else if str_eq(t, "knee") {
        Some(DynField::Knee)
    } else if str_eq(t, "mix") {
        Some(DynField::Mix)
    } else {
        None
    }
}

fn eq_field_exec(f: &[char]) -> (res: Option<EqBandField>)
    ensures
        res == eq_field_of(f@),
{
    let s = crate::text::string_from_chars(f);
    let t = s.as_str();
    if str_eq(t, "q") {
        Some(EqBandField::Q)
    } else if str_eq(t, "freq") {
        Some(EqBandField::Freq)
    } else if str_eq(t, "gain") {
        Some(EqBandField::Gain)
    } else if str_eq(t, "type") {
        Some(EqBandField::Type)
    } else {
        None
    }
}

fn send_route_exec(rest: &[char]) -> (res: ParamRoute)
    ensures
        res == send_route(rest@),
{
    let k = match find_char(rest, '.') {
        Some(k) => k,
        None => return ParamRoute::Ignored,
    };
    assert(k < rest.len());
    let idx_text = sub_chars(rest, 0, k);
    let idx = match parse_usize(idx_text.as_slice()) {
        Some(i) => i,
        None => return ParamRoute::Ignored,
    };
    let kind = crate::text::string_from_chars(sub_chars(rest, k + 1, rest.len()).as_slice());
    if str_eq(kind.as_str(), "lvl") {
        ParamRoute::Send { ms_send_index: idx, level: true }
    } else if str_eq(kind.as_str(), "on") {
        ParamRoute::Send { ms_send_index: idx, level: false }
    } else {
        ParamRoute::Ignored
    }
}

fn eq_band_route_exec(rest: &[char]) -> (res: ParamRoute)
    ensures
        res == eq_band_route(rest@),
{
    let k = match find_char(rest, '.') {
        Some(k) => k,
        None => return ParamRoute::Ignored,
    };
    assert(k < rest.len());
    let idx_text = sub_chars(rest, 0, k);
    let band = match parse_usize(idx_text.as_slice()) {
        Some(i) => i,
        None => return ParamRoute::Ignored,
    };
    if band >= 4 {
        return ParamRoute::Ignored;
    }
    let field = sub_chars(rest, k + 1, rest.len());
    match eq_field_exec(field.as_slice()) {
        Some(f) => ParamRoute::EqBand { band, field: f },
        None => ParamRoute::Ignored,
    }
}

/// Classifies a Mixing Station parameter path (see [`route_of`]).
pub fn route_param_path(path: &str) -> (res: ParamRoute)
    ensures
        res == route_of(path@),
{
    if str_eq(path, "cfg.name") {
        ParamRoute::Name
    } else if str_eq(path, "cfg.color") {
        ParamRoute::Color
    } else if str_eq(path, "mix.lvl") {
        ParamRoute::Volume
    } else if str_eq(path, "mix.on") {
        ParamRoute::Mute
    } else if str_eq(path, "solo") {
        ParamRoute::Solo
    } else if str_eq(path, "mix.pan") {
        ParamRoute::Pan
    } else if str_eq(path, "info.isActive") {
        ParamRoute::IsActive
    } else if str_eq(path, "selected") {
        ParamRoute::Selected
    } else if str_eq(path, "preamp.filter.0.on") {
        ParamRoute::FilterLcOn
    } else if str_eq(path, "preamp.filter.0.freq") {
        ParamRoute::FilterLcFreq
    } else if str_eq(path, "headamp.gain") {
        ParamRoute::HeadampGain
    } else if str_eq(path, "preamp.inv") {
        ParamRoute::PhaseInvert
    } else if str_eq(path, "peq.on") {
        ParamRoute::PeqOn
    } else {
        let p = chars_of(path);
        if let Some(rest) = strip_prefix_exec(p.as_slice(), "mix.sends.") {
            send_route_exec(rest.as_slice())
        } else if let Some(rest) = strip_prefix_exec(p.as_slice(), "peq.bands.") {
            eq_band_route_exec(rest.as_slice())
        } else if let Some(f) = strip_prefix_exec(p.as_slice(), "dyn.") {
            match dyn_field_exec(f.as_slice()) {
                Some(d) => ParamRoute::Dyn(d),
                None => ParamRoute::Ignored,
            }
        } else {
            ParamRoute::Ignored
        }
    }
}

/// The outcome of applying one parameter update: the track-batch fields that changed, and
/// the Filter/EQ/Compressor cache fields that were set (never track-batch fields).
#[derive(Debug)]
pub struct MsParamApplyResult {
    pub changed: Vec<(String, JsonValue)>,
    pub bare_field_updates: Vec<(String, JsonValue)>,
}

/// Two keyed lists with the same keys in the same order and structurally equal values.
pub open spec fn pairs_like(a: Seq<(Seq<char>, JsonValue)>, b: Seq<(Seq<char>, JsonValue)>) -> bool {
    a.len() == b.len() && forall|i: int| 0 <= i < a.len() ==> (#[trigger] a[i]).0 == b[i].0 && json_eq(a[i].1, b[i].1)
}

/// A JSON `true`, or `false` for anything else (`as_bool().unwrap_or(false)`).
pub open spec fn flag_of(value: JsonValue) -> bool {
    value.spec_as_bool() == Some(true)
}

/// Nothing changes and nothing is reported.
pub open spec fn nothing_applied(old: TrackInfo, new: TrackInfo, res: MsParamApplyResult) -> bool {
    new == old && res.changed@.len() == 0 && res.bare_field_updates@.len() == 0
}

/// Exactly the track-batch field `key` is reported, with a value structurally equal to `v`.
pub open spec fn reports(res: MsParamApplyResult, key: Seq<char>, v: JsonValue) -> bool {
    &&& res.changed@.len() == 1
    &&& res.changed@[0].0@ == key
    &&& json_eq(res.changed@[0].1, v)
    &&& res.bare_field_updates@.len() == 0
}

/// Exactly the track-batch field `key` is reported, as the text `t`.
pub open spec fn reports_text(res: MsParamApplyResult, key: Seq<char>, t: Seq<char>) -> bool {
    &&& res.changed@.len() == 1
    &&& res.changed@[0].0@ == key
    &&& res.changed@[0].1.spec_as_str() == Some(t)
    &&& res.bare_field_updates@.len() == 0
}

/// A level as stored and reported for the incoming `value`: `"-Infinity"` for silence,
/// else (structurally) the value itself.
pub open spec fn level_matches(v: JsonValue, value: JsonValue) -> bool {
    if is_silence_db(value) { v.spec_as_str() == Some("-Infinity"@) } else { json_eq(v, value) }
}

/// The level field `key` is reported with the level for `value`.
pub open spec fn reports_level(res: MsParamApplyResult, key: Seq<char>, value: JsonValue) -> bool {
    &&& res.changed@.len() == 1
    &&& res.changed@[0].0@ == key
    &&& level_matches(res.changed@[0].1, value)
    &&& res.bare_field_updates@.len() == 0
}

/// The DSP cache field `key` is set to (a copy of) `v`, and reported as a bare update.
pub open spec fn cache_set(old: TrackInfo, new: TrackInfo, res: MsParamApplyResult, key: Seq<char>, v: JsonValue) -> bool {
    &&& new == TrackInfo { dsp_fields: new.dsp_fields, ..old }
    &&& pairs_like(pairs_view(new.dsp_fields@), upsert(pairs_view(old.dsp_fields@), key, v))
    &&& res.changed@.len() == 0
    &&& res.bare_field_updates@.len() == 1
    &&& res.bare_field_updates@[0].0@ == key
    &&& json_eq(res.bare_field_updates@[0].1, v)
}

/// The real-unit companion of DSP field `key` is set to the number `value`, if it is one;
/// nothing is reported.
pub open spec fn real_set(old: TrackInfo, new: TrackInfo, res: MsParamApplyResult, key: Seq<char>, value: JsonValue) -> bool {
    &&& res.changed@.len() == 0
    &&& res.bare_field_updates@.len() == 0
    &&& match value.spec_as_f64_bits() {
        Some(b) => new == TrackInfo { dsp_real_value_bits: new.dsp_real_value_bits, ..old }
            && pairs_view(new.dsp_real_value_bits@) == upsert(pairs_view(old.dsp_real_value_bits@), key, b),
        None => new == old,
    }
}

/// A string that is empty once trimmed.
pub open spec fn is_blank_text(value: JsonValue) -> bool {
    match value {
        JsonValue::Str(s) => trim_seq(s@).len() == 0,
        _ => false,
    }
}

/// The name an update sets: a blank name falls back to the slot's default name.
pub open spec fn name_target(value: JsonValue, slot: LayoutSlot, bus_channel_start: usize) -> Option<Seq<char>> {
    match value {
        JsonValue::Str(s) => Some(if trim_seq(s@).len() == 0 { default_slot_name(slot, bus_channel_start) } else { s@ }),
        _ => None,
    }
}

/// A pan value as `json!(f64)` gives it: the float, or `null` when it is not finite.
pub open spec fn pan_json(bits: u64) -> JsonValue {
    if f64_is_finite(bits) { JsonValue::Number(JsonNumber { kind: NumberKind::Float, f64_bits: bits }) } else { JsonValue::Null }
}

/// The key of Console 1 send slot `c` (0-based): `send<c+1>`, with `On` for the switch.
pub open spec fn send_key(c: int, level: bool) -> Seq<char> {
    "send"@ + seq![digit_char(c + 1)] + if level { Seq::empty() } else { "On"@ }
}

/// The cache field of EQ band `band` (0-based): `eq<band+1>` and the parameter's name.
pub open spec fn eq_key(band: int, field: EqBandField) -> Seq<char> {
    "eq"@ + seq![digit_char(band + 1)] + match field {
        EqBandField::Freq => "Freq"@,
        EqBandField::Gain => "Gain"@,
        EqBandField::Q => "Q"@,
        EqBandField::Type => "Type"@,
    }
}

/// The cache field of a compressor parameter.
pub open spec fn dyn_key(f: DynField) -> Seq<char> {
    match f {
        DynField::On => "compOn"@,
        DynField::Ratio => "compRatio"@,
        DynField::Attack => "compAttack"@,
        DynField::Release => "compRelease"@,
        DynField::Gain => "compMakeup"@,
        DynField::Thr => "compComp"@,
        DynField::Knee => "compKnee"@,
        DynField::Mix => "compWetdry"@,
    }
}

/// A plain on/off track field update: when `next` differs from `cur`, `new` is `changed`
/// and `key` is reported as `next`; otherwise nothing happens.
pub open spec fn flag_applied(
    old: TrackInfo,
    new: TrackInfo,
    res: MsParamApplyResult,
    cur: bool,
    next: bool,
    changed: TrackInfo,
    key: Seq<char>,
) -> bool {
    if cur != next {
        new == changed && reports(res, key, JsonValue::Bool(next))
    } else {
        nothing_applied(old, new, res)
    }
}

/// The effect of one parameter update on a track (see [`route_of`] for the routing):
/// - name, color, volume, mute (`mix.on` inverted), solo, pan, active and selected set
///   their track field and are reported, but only when the value actually changes; a
///   name that is not a string, a color that does not convert, or a pan that is not a
///   number changes nothing;
/// - the Filter/EQ/Compressor parameters set their DSP cache field (reported as a bare
///   update), except that values in `val` format of the continuous ones (all but EQ type
///   and compressor on/mix) only record the real-unit companion; the input gain records
///   both, the cache taking `input_gain_norm_bits`;
/// - sends apply only with a mapping that has a Console 1 slot for the send index.
pub open spec fn ms_param_applied(
    old: TrackInfo,
    new: TrackInfo,
    res: MsParamApplyResult,
    route: ParamRoute,
    slot: LayoutSlot,
    bus_channel_start: usize,
    value: JsonValue,
    format: Option<MsValueFormat>,
    mapping: Option<Map<usize, usize>>,
    input_gain_norm_bits: u64,
) -> bool {
    match route {
        ParamRoute::Name => match name_target(value, slot, bus_channel_start) {
            None => nothing_applied(old, new, res),
            Some(n) => if old.name@ != n {
                new == TrackInfo { name: new.name, ..old } && new.name@ == n && reports_text(res, "name"@, n)
            } else {
                nothing_applied(old, new, res)
            },
        },
        ParamRoute::Color => match softube_color(value) {
            None => nothing_applied(old, new, res),
            Some(c) => if old.color != c as u32 {
                new == TrackInfo { color: c as u32, ..old } && reports(res, "color"@, JsonValue::Number(int_json(c)))
            } else {
                nothing_applied(old, new, res)
            },
        },
        ParamRoute::Volume => if level_matches(old.volume, value) {
            nothing_applied(old, new, res)
        } else {
            new == TrackInfo { volume: new.volume, ..old } && level_matches(new.volume, value)
                && reports_level(res, "volume"@, value)
        },
        ParamRoute::Mute => flag_applied(old, new, res, old.mute, !flag_of(value),
            TrackInfo { mute: !flag_of(value), ..old }, "mute"@),
        ParamRoute::Solo => flag_applied(old, new, res, old.solo, flag_of(value),
            TrackInfo { solo: flag_of(value), ..old }, "solo"@),
        ParamRoute::IsActive => flag_applied(old, new, res, old.is_active, flag_of(value),
            TrackInfo { is_active: flag_of(value), ..old }, "isActive"@),
        ParamRoute::Selected => flag_applied(old, new, res, old.selected, flag_of(value),
            TrackInfo { selected: flag_of(value), ..old }, "selected"@),
        ParamRoute::Pan => match value.spec_as_f64_bits() {
            None => nothing_applied(old, new, res),
            Some(b) => if !f64_eq(old.pan_bits, b) {
                new == TrackInfo { pan_bits: b, ..old } && reports(res, "pan"@, pan_json(b))
            } else {
                nothing_applied(old, new, res)
            },
        },
        ParamRoute::FilterLcOn => cache_set(old, new, res, "filterLcOn"@, JsonValue::Bool(flag_of(value))),
        ParamRoute::FilterLcFreq => if format == Some(MsValueFormat::Val) {
            real_set(old, new, res, "filterLcFreq"@, value)
        } else {
            cache_set(old, new, res, "filterLcFreq"@, value)
        },
        ParamRoute::HeadampGain => {
            let gain = JsonValue::Number(JsonNumber { kind: NumberKind::Float, f64_bits: input_gain_norm_bits });
            &&& new == TrackInfo { dsp_fields: new.dsp_fields, dsp_real_value_bits: new.dsp_real_value_bits, ..old }
            &&& pairs_view(new.dsp_real_value_bits@) == match value.spec_as_f64_bits() {
                Some(b) => upsert(pairs_view(old.dsp_real_value_bits@), "filterPreGain"@, b),
                None => pairs_view(old.dsp_real_value_bits@),
            }
            &&& pairs_view(new.dsp_fields@) == upsert(pairs_view(old.dsp_fields@), "filterPreGain"@, gain)
            &&& res.changed@.len() == 0
            &&& res.bare_field_updates@.len() == 1
            &&& res.bare_field_updates@[0].0@ == "filterPreGain"@
            &&& res.bare_field_updates@[0].1 == gain
        },
        ParamRoute::PhaseInvert => cache_set(old, new, res, "filterPhaseInvert"@, JsonValue::Bool(flag_of(value))),
        ParamRoute::PeqOn => {
            let on = JsonValue::Bool(flag_of(value));
            &&& new == TrackInfo { dsp_fields: new.dsp_fields, ..old }
            &&& pairs_view(new.dsp_fields@) == upsert(upsert(upsert(upsert(pairs_view(old.dsp_fields@),
                "eq1On"@, on), "eq2On"@, on), "eq3On"@, on), "eq4On"@, on)
            &&& res.changed@.len() == 0
            &&& pairs_view(res.bare_field_updates@) == seq![("eq1On"@, on), ("eq2On"@, on), ("eq3On"@, on), ("eq4On"@, on)]
        },
        ParamRoute::Send { ms_send_index, level } => match mapping {
            None => nothing_applied(old, new, res),
            Some(m) => if !m.contains_key(ms_send_index) {
                nothing_applied(old, new, res)
            } else {
                let c = m[ms_send_index] as int;
                if level {
                    if level_matches(old.send_levels@[c], value) {
                        nothing_applied(old, new, res)
                    } else {
                        &&& new == TrackInfo { send_levels: new.send_levels, ..old }
                        &&& new.send_levels@.len() == 6
                        &&& level_matches(new.send_levels@[c], value)
                        &&& forall|j: int| 0 <= j < 6 && j != c ==> new.send_levels@[j] == old.send_levels@[j]
                        &&& reports_level(res, send_key(c, true), value)
                    }
                } else {
                    let next = flag_of(value);
                    if old.send_on@[c] == next {
                        nothing_applied(old, new, res)
                    } else {
                        &&& new == TrackInfo { send_on: new.send_on, ..old }
                        &&& new.send_on@ == old.send_on@.update(c, next)
                        &&& reports(res, send_key(c, false), JsonValue::Bool(next))
                    }
                }
            },
        },
        ParamRoute::EqBand { band, field } => if field != EqBandField::Type && format == Some(MsValueFormat::Val) {
            real_set(old, new, res, eq_key(band as int, field), value)
        } else {
            cache_set(old, new, res, eq_key(band as int, field), value)
        },
        ParamRoute::Dyn(f) => if f == DynField::On {
            cache_set(old, new, res, dyn_key(f), JsonValue::Bool(flag_of(value)))
        } else if f != DynField::Mix && format == Some(MsValueFormat::Val) {
            real_set(old, new, res, dyn_key(f), value)
        } else {
            cache_set(old, new, res, dyn_key(f), value)
        },
        ParamRoute::Ignored => nothing_applied(old, new, res),
    }
}

/// The routes that set a track field (not a DSP cache entry).
pub open spec fn is_track_field_route(route: ParamRoute) -> bool {
    ||| route is Name
    ||| route is Color
    ||| route is Volume
    ||| route is Mute
    ||| route is Solo
    ||| route is Pan
    ||| route is IsActive
    ||| route is Selected
    ||| route is Send
    ||| route is Ignored
}

/// Applying the same parameter value a second time reports no track-batch change and
/// changes no track field; a track-field route leaves the track as it is (for a pan, a
/// value that is not NaN; a NaN pan never equals the stored one). A DSP route stores its
/// value again, in the DSP caches only.
pub proof fn lemma_reapplying_reports_no_change(
    t0: TrackInfo,
    t1: TrackInfo,
    t2: TrackInfo,
    r1: MsParamApplyResult,
    r2: MsParamApplyResult,
    route: ParamRoute,
    slot: LayoutSlot,
    bus_channel_start: usize,
    value: JsonValue,
    format: Option<MsValueFormat>,
    input_gain_norm_bits: u64,
)
    requires
        ms_param_applied(t0, t1, r1, route, slot, bus_channel_start, value, format, None, input_gain_norm_bits),
        ms_param_applied(t1, t2, r2, route, slot, bus_channel_start, value, format, None, input_gain_norm_bits),
        route == ParamRoute::Pan ==> (value.spec_as_f64_bits() matches Some(b) ==> !crate::json::f64_is_nan(b)),
    ensures
        r2.changed@.len() == 0,
        is_track_field_route(route) ==> t2 == t1,
        t2 == (TrackInfo { dsp_fields: t2.dsp_fields, dsp_real_value_bits: t2.dsp_real_value_bits, ..t1 }),
{
}

/// Upserting structurally equal values gives structurally equal lists.
proof fn lemma_upsert_like(s: Seq<(Seq<char>, JsonValue)>, k: Seq<char>, a: JsonValue, b: JsonValue)
    requires
        json_eq(a, b),
    ensures
        pairs_like(upsert(s, k, a), upsert(s, k, b)),
{
    lemma_key_pos(s, k);
    assert forall|i: int| 0 <= i < s.len() implies json_eq(#[trigger] s[i].1, s[i].1) by {
        lemma_json_eq_refl(s[i].1);
    }
}

pub(crate) fn flag_value(value: &JsonValue) -> (res: bool)
    ensures
        res == flag_of(*value),
{
    match value.as_bool() {
        Some(b) => b,
        None => false,
    }
}

/// Sets DSP cache field `key` to a copy of `v` and reports `(key, v)` as a bare update.
fn set_cache_only(track: &mut TrackInfo, result: &mut MsParamApplyResult, key: String, v: JsonValue)
    ensures
        *final(track) == (TrackInfo { dsp_fields: final(track).dsp_fields, ..*old(track) }),
        pairs_like(pairs_view(final(track).dsp_fields@), upsert(pairs_view(old(track).dsp_fields@), key@, v)),
        !(v is Array) && !(v is Object) ==> pairs_view(final(track).dsp_fields@) == upsert(pairs_view(old(track).dsp_fields@), key@, v),
        final(result).changed == old(result).changed,
        final(result).bare_field_updates@ == old(result).bare_field_updates@.push((key, v)),
{
    let copy = copy_json(&v);
    let k2 = key.clone();
    upsert_text_key(&mut track.dsp_fields, k2, copy);
    proof {
        lemma_upsert_like(pairs_view(old(track).dsp_fields@), key@, copy, v);
    }
    result.bare_field_updates.push((key, v));
}

/// Records the real-unit companion of DSP field `key` when `value` is a number.
fn set_real_value_only(track: &mut TrackInfo, key: &str, value: &JsonValue)
    ensures
        match value.spec_as_f64_bits() {
            Some(b) => *final(track) == (TrackInfo { dsp_real_value_bits: final(track).dsp_real_value_bits, ..*old(track) })
                && pairs_view(final(track).dsp_real_value_bits@) == upsert(pairs_view(old(track).dsp_real_value_bits@), key@, b),
            None => *final(track) == *old(track),
        },
{
    if let Some(b) = value.as_f64_bits() {
        upsert_text_key(&mut track.dsp_real_value_bits, owned(key), b);
    }
}

/// The level to store for an incoming `value`: `"-Infinity"` for silence, else a copy.
fn level_for(value: &JsonValue) -> (res: JsonValue)
    ensures
        level_matches(res, *value),
        forall|cur: JsonValue| level_matches(cur, *value) <==> #[trigger] json_eq(cur, res),
{
    if is_negative_infinity_db(value) {
        let r = JsonValue::Str(owned("-Infinity"));
        r
    } else {
        let r = copy_json(value);
        proof {
            assert forall|cur: JsonValue| level_matches(cur, *value) <==> #[trigger] json_eq(cur, r) by {
                if json_eq(cur, *value) {
                    lemma_json_eq_sym(r, *value);
                    lemma_json_eq_trans(cur, *value, r);
                }
                if json_eq(cur, r) {
                    lemma_json_eq_trans(cur, r, *value);
                }
            }
        }
        r
    }
}

pub(crate) fn send_key_exec(c: usize, level: bool) -> (res: String)
    requires
        c < 6,
    ensures
        res@ == send_key(c as int, level),
{
    let mut out = chars_of("send");
    out.push(((0x31 + c) as u8) as char);
    if !level {
        let on = chars_of("On");
        crate::text::append_chars(&mut out, on.as_slice());
    }
    proof {
        assert(digit_char(c + 1) == ((0x31 + c) as u8) as char);
    }
    let r = string_from_chars(out.as_slice());
    assert(r@ =~= send_key(c as int, level));
    r
}

fn eq_key_exec(band: usize, field: EqBandField) -> (res: String)
    requires
        band < 4,
    ensures
        res@ == eq_key(band as int, field),
{
    let mut out = chars_of("eq");
    out.push(((0x31 + band) as u8) as char);
    let suffix = match field {
        EqBandField::Freq => chars_of("Freq"),
        EqBandField::Gain => chars_of("Gain"),
        EqBandField::Q => chars_of("Q"),
        EqBandField::Type => chars_of("Type"),
    };
    crate::text::append_chars(&mut out, suffix.as_slice());
    proof {
        assert(digit_char(band + 1) == ((0x31 + band) as u8) as char);
    }
    let r = string_from_chars(out.as_slice());
    assert(r@ =~= eq_key(band as int, field));
    r
}

fn dyn_key_exec(f: DynField) -> (res: String)
    ensures
        res@ == dyn_key(f),
{
    match f {
        DynField::On => owned("compOn"),
        DynField::Ratio => owned("compRatio"),
        DynField::Attack => owned("compAttack"),
        DynField::Release => owned("compRelease"),
        DynField::Gain => owned("compMakeup"),
        DynField::Thr => owned("compComp"),
        DynField::Knee => owned("compKnee"),
        DynField::Mix => owned("compWetdry"),
    }
}

/// The DSP cache update of a Filter/EQ/Compressor parameter: the real-unit companion for
/// a `val`-format value of a continuous parameter, else the cache field.
fn apply_dsp_value(
    track: &mut TrackInfo,
    result: &mut MsParamApplyResult,
    key: String,
    value: &JsonValue,
    real_only: bool,
)
    requires
        old(result).changed@.len() == 0,
        old(result).bare_field_updates@.len() == 0,
    ensures
        real_only ==> real_set(*old(track), *final(track), *final(result), key@, *value),
        !real_only ==> cache_set(*old(track), *final(track), *final(result), key@, *value),
{
    if real_only {
        set_real_value_only(track, key.as_str(), value);
    } else {
        let v = copy_json(value);
        let ghost before = pairs_view(track.dsp_fields@);
        set_cache_only(track, result, key, v);
        proof {
            lemma_upsert_like(before, key@, v, *value);
            let a = pairs_view(track.dsp_fields@);
            let b = upsert(before, key@, v);
            let c = upsert(before, key@, *value);
            assert forall|i: int| 0 <= i < a.len() implies (#[trigger] a[i]).0 == c[i].0 && json_eq(a[i].1, c[i].1) by {
                assert(a[i].0 == b[i].0 && json_eq(a[i].1, b[i].1));
                assert(b[i].0 == c[i].0 && json_eq(b[i].1, c[i].1));
                lemma_json_eq_trans(a[i].1, b[i].1, c[i].1);
            }
            lemma_json_eq_sym(v, *value);
            lemma_json_eq_sym(*value, v);
        }
    }
}

/// The mapping's Console 1 slots, when there is a mapping.
pub open spec fn mapping_of(send_mapping: Option<&SendMapping>) -> Option<Map<usize, usize>> {
    match send_mapping {
        Some(m) => Some(m.ms_send_index_to_c1_slot@),
        None => None,
    }
}

/// Applies one Mixing Station parameter update to a cached track (see
/// [`ms_param_applied`]). `input_gain_norm_bits` is the bit pattern of the normalized
/// input gain for `value` (the -12..60 dB headamp range mapped linearly onto 0..1,
/// clamped), used only for `headamp.gain`; sends are only applied with a mapping.
#[verifier::rlimit(40)]
pub fn apply_ms_param_to_track_inner(
    track: &mut TrackInfo,
    slot: &LayoutSlot,
    bus_channel_start: usize,
    param_path: &str,
    value: &JsonValue,
    format: Option<MsValueFormat>,
    send_mapping: Option<&SendMapping>,
    input_gain_norm_bits: u64,
) -> (res: MsParamApplyResult)
    requires
        old(track).wf(),
        route_of(param_path@) == ParamRoute::Name && is_blank_text(*value) ==> nameable_slot(*slot, bus_channel_start),
        send_mapping matches Some(m) ==> forall|k: usize| #[trigger] m.ms_send_index_to_c1_slot@.contains_key(k)
            ==> m.ms_send_index_to_c1_slot@[k] < 6,
    ensures
        final(track).wf(),
        ms_param_applied(*old(track), *final(track), res, route_of(param_path@), *slot, bus_channel_start,
            *value, format, mapping_of(send_mapping), input_gain_norm_bits),
{
    let mut result = MsParamApplyResult { changed: Vec::new(), bare_field_updates: Vec::new() };
    let route = route_param_path(param_path);
    match route {
        ParamRoute::Name => {
            if let JsonValue::Str(s) = value {
                let trimmed = trim_str(s.as_str());
                let next = if trimmed.as_str().unicode_len() == 0 {
                    default_name_for_slot(slot, bus_channel_start)
                } else {
                    s.clone()
                };
                if !str_eq(track.name.as_str(), next.as_str()) {
                    track.name = next.clone();
                    result.changed.push((owned("name"), JsonValue::Str(next)));
                }
            }
        },
        ParamRoute::Color => {
            if let Some(c) = ms_color_to_softube_color_int(value) {
                if track.color != c {
                    track.color = c;
                    let n = i64_number(c as i64);
                    result.changed.push((owned("color"), JsonValue::Number(n)));
                    proof {
                        lemma_json_eq_refl(JsonValue::Number(n));
                    }
                }
            }
        },
        ParamRoute::Volume => {
            let next = level_for(value);
            if !json_equal(&track.volume, &next) {
                track.volume = copy_json(&next);
                proof {
                    lemma_json_eq_sym(track.volume, next);
                    lemma_json_eq_trans(track.volume, next, next);
                }
                result.changed.push((owned("volume"), next));
                proof {
                    lemma_json_eq_refl(next);
                }
            }
        },
        ParamRoute::Mute => {
            let next = !flag_value(value);
            if track.mute != next {
                track.mute = next;
                result.changed.push((owned("mute"), JsonValue::Bool(next)));
            }
        },
        ParamRoute::Solo => {
            let next = flag_value(value);
            if track.solo != next {
                track.solo = next;
                result.changed.push((owned("solo"), JsonValue::Bool(next)));
            }
        },
        ParamRoute::IsActive => {
            let next = flag_value(value);
            if track.is_active != next {
                track.is_active = next;
                result.changed.push((owned("isActive"), JsonValue::Bool(next)));
            }
        },
        ParamRoute::Selected => {
            let next = flag_value(value);
            if track.selected != next {
                track.selected = next;
                result.changed.push((owned("selected"), JsonValue::Bool(next)));
            }
        },
        ParamRoute::Pan => {
            if let Some(b) = value.as_f64_bits() {
                if !f64_equal(track.pan_bits, b) {
                    track.pan_bits = b;
                    let finite = (b % 0x8000_0000_0000_0000) / 0x10_0000_0000_0000 != 2047;
                    assert(((b as int / crate::json::two_pow_52() as int) % 2048 != 2047) == finite);
                    let pan = if finite {
                        JsonValue::Number(JsonNumber { kind: NumberKind::Float, f64_bits: b })
                    } else {
                        JsonValue::Null
                    };
                    proof {
                        lemma_json_eq_refl(pan);
                    }
                    result.changed.push((owned("pan"), pan));
                }
            }
        },
        ParamRoute::FilterLcOn => {
            let v = JsonValue::Bool(flag_value(value));
            proof {
                lemma_json_eq_refl(v);
            }
            set_cache_only(track, &mut result, owned("filterLcOn"), v);
        },
        ParamRoute::FilterLcFreq => {
            let real_only = format == Some(MsValueFormat::Val);
            apply_dsp_value(track, &mut result, owned("filterLcFreq"), value, real_only);
        },
        ParamRoute::HeadampGain => {
            set_real_value_only(track, "filterPreGain", value);
            let gain = JsonValue::Number(JsonNumber { kind: NumberKind::Float, f64_bits: input_gain_norm_bits });
            set_cache_only(track, &mut result, owned("filterPreGain"), gain);
        },
        ParamRoute::PhaseInvert => {
            let v = JsonValue::Bool(flag_value(value));
            proof {
                lemma_json_eq_refl(v);
            }
            set_cache_only(track, &mut result, owned("filterPhaseInvert"), v);
        },
        ParamRoute::PeqOn => {
            let on = flag_value(value);
            set_cache_only(track, &mut result, owned("eq1On"), JsonValue::Bool(on));
            set_cache_only(track, &mut result, owned("eq2On"), JsonValue::Bool(on));
            set_cache_only(track, &mut result, owned("eq3On"), JsonValue::Bool(on));
            set_cache_only(track, &mut result, owned("eq4On"), JsonValue::Bool(on));
            proof {
                assert(pairs_view(result.bare_field_updates@) =~= seq![("eq1On"@, JsonValue::Bool(on)),
                    ("eq2On"@, JsonValue::Bool(on)), ("eq3On"@, JsonValue::Bool(on)), ("eq4On"@, JsonValue::Bool(on))]);
            }
        },
        ParamRoute::Send { ms_send_index, level } => {
            if let Some(mapping) = send_mapping {
                if let Some(c) = mapping.ms_send_index_to_c1_slot.get(&ms_send_index) {
                    let c = *c;
                    if level {
                        let next = level_for(value);
                        if !json_equal(&track.send_levels[c], &next) {
                            let stored = copy_json(&next);
                            proof {
                                lemma_json_eq_trans(stored, next, next);
                            }
                            track.send_levels.set(c, stored);
                            let key = send_key_exec(c, true);
                            result.changed.push((key, next));
                            proof {
                                lemma_json_eq_refl(next);
                            }
                        }
                    } else {
                        let next = flag_value(value);
                        if track.send_on[c] != next {
                            track.send_on.set(c, next);
                            let key = send_key_exec(c, false);
                            result.changed.push((key, JsonValue::Bool(next)));
                        }
                    }
                }
            }
        },
        ParamRoute::EqBand { band, field } => {
            let real_only = !(field == EqBandField::Type) && format == Some(MsValueFormat::Val);
            let key = eq_key_exec(band, field);
            apply_dsp_value(track, &mut result, key, value, real_only);
        },
        ParamRoute::Dyn(f) => {
            let key = dyn_key_exec(f);
            if f == DynField::On {
                let v = JsonValue::Bool(flag_value(value));
                proof {
                    lemma_json_eq_refl(v);
                }
                set_cache_only(track, &mut result, key, v);
            } else {
                let real_only = !(f == DynField::Mix) && format == Some(MsValueFormat::Val);
                apply_dsp_value(track, &mut result, key, value, real_only);
            }
        },
        ParamRoute::Ignored => {},
    }
    result
}

/// Applies a parameter update without send remapping: `mix.sends.*` updates have no
/// effect here (see [`apply_ms_param_to_track_inner`]).
pub fn apply_ms_param_to_track(
    track: &mut TrackInfo,
    slot: &LayoutSlot,
    bus_channel_start: usize,
    param_path: &str,
    value: &JsonValue,
    format: Option<MsValueFormat>,
    input_gain_norm_bits: u64,
) -> (res: MsParamApplyResult)
    requires
        old(track).wf(),
        route_of(param_path@) == ParamRoute::Name && is_blank_text(*value) ==> nameable_slot(*slot, bus_channel_start),
    ensures
        final(track).wf(),
        ms_param_applied(*old(track), *final(track), res, route_of(param_path@), *slot, bus_channel_start,
            *value, format, None, input_gain_norm_bits),
{
    apply_ms_param_to_track_inner(track, slot, bus_channel_start, param_path, value, format, None, input_gain_norm_bits)
}

/// Applies a parameter update, remapping `mix.sends.*` through the send mapping (see
/// [`apply_ms_param_to_track_inner`]).
pub fn apply_ms_param_to_track_with_send_mapping(
    track: &mut TrackInfo,
    slot: &LayoutSlot,
    bus_channel_start: usize,
    param_path: &str,
    value: &JsonValue,
    format: Option<MsValueFormat>,
    send_mapping: &SendMapping,
    input_gain_norm_bits: u64,
) -> (res: MsParamApplyResult)
    requires
        old(track).wf(),
        route_of(param_path@) == ParamRoute::Name && is_blank_text(*value) ==> nameable_slot(*slot, bus_channel_start),
        forall|k: usize| #[trigger] send_mapping.ms_send_index_to_c1_slot@.contains_key(k)
            ==> send_mapping.ms_send_index_to_c1_slot@[k] < 6,
    ensures
        final(track).wf(),
        ms_param_applied(*old(track), *final(track), res, route_of(param_path@), *slot, bus_channel_start,
            *value, format, Some(send_mapping.ms_send_index_to_c1_slot@), input_gain_norm_bits),
{
    apply_ms_param_to_track_inner(track, slot, bus_channel_start, param_path, value, format, Some(send_mapping), input_gain_norm_bits)
}

} // verus!
