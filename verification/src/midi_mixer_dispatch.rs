//! Console 1 → Mixing Station handlers for the mixer fields: volume, mute, solo, selected
//! and send levels/switches, and the Bus/Main fader display in sends mode. Each handler
//! updates the track optimistically (so Console 1's controls do not snap back while the
//! Mixing Station echo is pending), returns the track-batch fields that changed, and
//! appends the Mixing Station writes it calls for.
//!
//! Turning Console 1's level text into numbers is floating-point work: the callers hand
//! the handlers that conversion as functions.

use crate::channel_data_message::MsFormat;
use crate::json::{JsonNumber, JsonValue, NumberKind, copy_json, i64_number, int_json, json_eq, json_equal, lemma_json_eq_refl};
use crate::keyed::pairs_view;
use crate::ms_param_apply::{flag_of, flag_value, pairs_like, pan_json, send_key, send_key_exec};
use crate::send_mapping::SendMapping;
use crate::sends_mode::{latched_sends_mode, maybe_latch_sends_mode_from_selection, mirror_changes, mirror_console1_send_slots_from_volume};
use crate::text::{append_chars, chars_of, decimal, decimal_chars, owned, string_from_chars};
use crate::track_cache::TrackInfo;
use crate::track_layout::{LayoutSlot, LayoutSlotKind};
use crate::dsp_field_metadata::F64_HALF_BITS;
use crate::midi_dsp_dispatch::{clamp01, clamp01_bits};
use vstd::prelude::*;

verus! {

broadcast use vstd::std_specs::hash::group_hash_axioms;

/// One Mixing Station parameter write.
#[derive(Debug)]
pub struct MsWrite {
    pub path: String,
    pub value: JsonValue,
    pub format: MsFormat,
}

/// A write by its path text, value and format.
pub open spec fn write_view(w: MsWrite) -> (Seq<char>, JsonValue, MsFormat) {
    (w.path@, w.value, w.format)
}

/// The writes, each by [`write_view`].
pub open spec fn writes_view(ws: Seq<MsWrite>) -> Seq<(Seq<char>, JsonValue, MsFormat)> {
    ws.map_values(|w: MsWrite| write_view(w))
}

/// `ch.<ch>.<suffix>`.
pub open spec fn channel_path(ch: usize, suffix: Seq<char>) -> Seq<char> {
    "ch."@ + decimal(ch as nat) + "."@ + suffix
}

/// One write of `value` to `<suffix>` of each of `chs`, in order.
pub open spec fn channel_writes(chs: Seq<usize>, suffix: Seq<char>, value: JsonValue, format: MsFormat) -> Seq<(Seq<char>, JsonValue, MsFormat)> {
    chs.map_values(|ch: usize| (channel_path(ch, suffix), value, format))
}

/// A JSON value that is neither an array nor an object.
pub open spec fn is_scalar(v: JsonValue) -> bool {
    !(v is Array) && !(v is Object)
}

/// The integer 1 or 0 for a switch.
pub open spec fn switch_json(on: bool) -> JsonValue {
    JsonValue::Number(int_json(if on { 1 } else { 0 }))
}

fn switch_value(on: bool) -> (res: JsonValue)
    ensures
        res == switch_json(on),
{
    JsonValue::Number(i64_number(if on { 1 } else { 0 }))
}

pub(crate) fn channel_path_exec(ch: usize, suffix: &[char]) -> (res: String)
    ensures
        res@ == channel_path(ch, suffix@),
{
    let mut out = chars_of("ch.");
    let d = decimal_chars(ch as u64);
    append_chars(&mut out, d.as_slice());
    out.push('.');
    append_chars(&mut out, suffix);
    let r = string_from_chars(out.as_slice());
    proof {
        reveal_strlit(".");
        assert(r@ =~= channel_path(ch, suffix@));
    }
    r
}

/// Appends a write of `value` to `<suffix>` of each of the slot's channels.
pub fn push_writes_for_channels(writes: &mut Vec<MsWrite>, slot: &LayoutSlot, suffix: &str, value: JsonValue, format: MsFormat)
    requires
        is_scalar(value),
    ensures
        writes_view(final(writes)@) == writes_view(old(writes)@) + channel_writes(slot.ms_channels@, suffix@, value, format),
{
    let sfx = chars_of(suffix);
    let mut i: usize = 0;
    while i < slot.ms_channels.len()
        invariant
            i <= slot.ms_channels@.len(),
            is_scalar(value),
            sfx@ == suffix@,
            writes_view(writes@) == writes_view(old(writes)@) + channel_writes(slot.ms_channels@.subrange(0, i as int), suffix@, value, format),
        decreases slot.ms_channels.len() - i,
    {
        let ch = slot.ms_channels[i];
        let path = channel_path_exec(ch, sfx.as_slice());
        let v = copy_json(&value);
        let ghost before = writes@;
        writes.push(MsWrite { path, value: v, format });
        proof {
            assert(writes_view(writes@) =~= writes_view(before).push((channel_path(ch, suffix@), value, format)));
            assert(channel_writes(slot.ms_channels@.subrange(0, i + 1), suffix@, value, format)
                =~= channel_writes(slot.ms_channels@.subrange(0, i as int), suffix@, value, format).push((channel_path(ch, suffix@), value, format)));
            assert(writes_view(writes@) =~= writes_view(old(writes)@) + channel_writes(slot.ms_channels@.subrange(0, i + 1), suffix@, value, format));
        }
        i = i + 1;
    }
    assert(slot.ms_channels@.subrange(0, slot.ms_channels@.len() as int) =~= slot.ms_channels@);
}

/// A Bus or Main slot.
pub open spec fn is_bus_or_main(kind: LayoutSlotKind) -> bool {
    kind == LayoutSlotKind::Bus || kind == LayoutSlotKind::Main
}

/// `mix.sends.<index>.<kind>`.
pub open spec fn send_suffix(ms_send_index: usize, kind: Seq<char>) -> Seq<char> {
    "mix.sends."@ + decimal(ms_send_index as nat) + "."@ + kind
}

pub(crate) fn send_suffix_exec(ms_send_index: usize, kind: &str) -> (res: String)
    ensures
        res@ == send_suffix(ms_send_index, kind@),
{
    let mut out = chars_of("mix.sends.");
    let d = decimal_chars(ms_send_index as u64);
    append_chars(&mut out, d.as_slice());
    out.push('.');
    let k = chars_of(kind);
    append_chars(&mut out, k.as_slice());
    let r = string_from_chars(out.as_slice());
    proof {
        reveal_strlit(".");
        assert(r@ =~= send_suffix(ms_send_index, kind@));
    }
    r
}

/// The effect of a Console 1 `mute` press (always a toggle of the state it acts on):
/// - no `mute` field, or a slot that is neither Input, Bus nor Main: nothing;
/// - Bus/Main, and Input outside sends mode: the track's mute toggles, `mix.on` of each
///   channel is written (0 when muted) and `mute` is reported;
/// - Input in sends mode, with a Console 1 slot for the active send: that send's switch
///   toggles, the mute LED shows it off, `mix.sends.<index>.on` is written, and `mute`
///   and `send<n>On` are reported;
/// - Input in sends mode without such a slot: only the send switch is written (the
///   inverse of the toggled mute), nothing is reported.
pub open spec fn midi_mute_applied(
    parsed: JsonValue,
    slot: LayoutSlot,
    old_track: TrackInfo,
    new_track: TrackInfo,
    sends_mode_ms_send_index: Option<usize>,
    mapping: Map<usize, usize>,
    old_writes: Seq<(Seq<char>, JsonValue, MsFormat)>,
    new_writes: Seq<(Seq<char>, JsonValue, MsFormat)>,
    changed: Seq<(Seq<char>, JsonValue)>,
) -> bool {
    match parsed.spec_get("mute"@) {
        None => new_track == old_track && new_writes == old_writes && changed.len() == 0,
        Some(raw) => {
            let incoming = flag_of(raw);
            if slot.kind != LayoutSlotKind::Input && !is_bus_or_main(slot.kind) {
                new_track == old_track && new_writes == old_writes && changed.len() == 0
            } else if slot.kind == LayoutSlotKind::Input && sends_mode_ms_send_index is Some {
                let idx = sends_mode_ms_send_index.unwrap();
                if mapping.contains_key(idx) {
                    let c = mapping[idx] as int;
                    let next_muted = if incoming == !old_track.send_on@[c] { old_track.send_on@[c] } else { incoming };
                    &&& new_track == (TrackInfo { send_on: new_track.send_on, mute: next_muted, ..old_track })
                    &&& new_track.send_on@ == old_track.send_on@.update(c, !next_muted)
                    &&& new_writes == old_writes + channel_writes(slot.ms_channels@, send_suffix(idx, "on"@), switch_json(!next_muted), MsFormat::Val)
                    &&& changed == seq![("mute"@, JsonValue::Bool(next_muted)), (send_key(c, false), JsonValue::Bool(!next_muted))]
                } else {
                    let fallback = if incoming == old_track.mute { !old_track.mute } else { incoming };
                    &&& new_track == old_track
                    &&& new_writes == old_writes + channel_writes(slot.ms_channels@, send_suffix(idx, "on"@), switch_json(!fallback), MsFormat::Val)
                    &&& changed.len() == 0
                }
            } else {
                let next = if incoming == old_track.mute { !old_track.mute } else { incoming };
                &&& new_track == (TrackInfo { mute: next, ..old_track })
                &&& new_writes == old_writes + channel_writes(slot.ms_channels@, "mix.on"@, switch_json(!next), MsFormat::Val)
                &&& changed == seq![("mute"@, JsonValue::Bool(next))]
            }
        },
    }
}

/// Handles a Console 1 `mute` field (see [`midi_mute_applied`]).
pub fn handle_midi_mute_update(
    parsed: &JsonValue,
    slot: &LayoutSlot,
    track: &mut TrackInfo,
    sends_mode_ms_send_index: Option<usize>,
    mapping: &SendMapping,
    writes: &mut Vec<MsWrite>,
) -> (res: Vec<(String, JsonValue)>)
    requires
        old(track).wf(),
        forall|k: usize| #[trigger] mapping.ms_send_index_to_c1_slot@.contains_key(k)
            ==> mapping.ms_send_index_to_c1_slot@[k] < 6,
    ensures
        final(track).wf(),
        midi_mute_applied(*parsed, *slot, *old(track), *final(track), sends_mode_ms_send_index,
            mapping.ms_send_index_to_c1_slot@, writes_view(old(writes)@), writes_view(final(writes)@), pairs_view(res@)),
{
    let raw = match parsed.get("mute") {
        Some(r) => r,
        None => return Vec::new(),
    };
    let incoming = flag_value(raw);
    let is_input = slot.kind == LayoutSlotKind::Input;
    let bus_or_main = slot.kind == LayoutSlotKind::Bus || slot.kind == LayoutSlotKind::Main;
    if !is_input && !bus_or_main {
        return Vec::new();
    }
    if is_input && sends_mode_ms_send_index.is_some() {
        let idx = match sends_mode_ms_send_index {
            Some(i) => i,
            None => return Vec::new(),
        };
        let suffix = send_suffix_exec(idx, "on");
        match mapping.ms_send_index_to_c1_slot.get(&idx) {
            Some(c) => {
                let c = *c;
                let current_on = track.send_on[c];
                let current_muted = !current_on;
                let next_muted = if incoming == current_muted { !current_muted } else { incoming };
                let next_on = !next_muted;
                track.send_on.set(c, next_on);
                track.mute = next_muted;
                push_writes_for_channels(writes, slot, suffix.as_str(), switch_value(next_on), MsFormat::Val);
                let mut changed: Vec<(String, JsonValue)> = Vec::new();
                changed.push((owned("mute"), JsonValue::Bool(next_muted)));
                changed.push((send_key_exec(c, false), JsonValue::Bool(next_on)));
                proof {
                    assert(track.send_on@ =~= old(track).send_on@.update(c as int, next_on));
                    assert(pairs_view(changed@) =~= seq![("mute"@, JsonValue::Bool(next_muted)),
                        (send_key(c as int, false), JsonValue::Bool(next_on))]);
                }
                changed
            },
            None => {
                let fallback = if incoming == track.mute { !track.mute } else { incoming };
                push_writes_for_channels(writes, slot, suffix.as_str(), switch_value(!fallback), MsFormat::Val);
                Vec::new()
            },
        }
    } else {
        let next = if incoming == track.mute { !track.mute } else { incoming };
        track.mute = next;
        push_writes_for_channels(writes, slot, "mix.on", switch_value(!next), MsFormat::Val);
        let mut changed: Vec<(String, JsonValue)> = Vec::new();
        changed.push((owned("mute"), JsonValue::Bool(next)));
        assert(pairs_view(changed@) =~= seq![("mute"@, JsonValue::Bool(next))]);
        changed
    }
}

/// The effect of a Console 1 `solo` press: nothing without a `solo` field, or for slots
/// other than Input and Main (buses ignore solo); otherwise the solo toggles, `solo` of
/// each channel is written (1 when soloed) and `solo` is reported.
pub open spec fn midi_solo_applied(
    parsed: JsonValue,
    slot: LayoutSlot,
    old_track: TrackInfo,
    new_track: TrackInfo,
    old_writes: Seq<(Seq<char>, JsonValue, MsFormat)>,
    new_writes: Seq<(Seq<char>, JsonValue, MsFormat)>,
    changed: Seq<(Seq<char>, JsonValue)>,
) -> bool {
    match parsed.spec_get("solo"@) {
        Some(raw) if slot.kind == LayoutSlotKind::Input || slot.kind == LayoutSlotKind::Main => {
            let incoming = flag_of(raw);
            let next = if incoming == old_track.solo { !old_track.solo } else { incoming };
            &&& new_track == (TrackInfo { solo: next, ..old_track })
            &&& new_writes == old_writes + channel_writes(slot.ms_channels@, "solo"@, switch_json(next), MsFormat::Val)
            &&& changed == seq![("solo"@, JsonValue::Bool(next))]
        },
        _ => new_track == old_track && new_writes == old_writes && changed.len() == 0,
    }
}

/// Handles a Console 1 `solo` field (see [`midi_solo_applied`]).
pub fn handle_midi_solo_update(
    parsed: &JsonValue,
    slot: &LayoutSlot,
    track: &mut TrackInfo,
    writes: &mut Vec<MsWrite>,
) -> (res: Vec<(String, JsonValue)>)
    ensures
        midi_solo_applied(*parsed, *slot, *old(track), *final(track), writes_view(old(writes)@),
            writes_view(final(writes)@), pairs_view(res@)),
{
    let raw = match parsed.get("solo") {
        Some(r) => r,
        None => return Vec::new(),
    };
    if !(slot.kind == LayoutSlotKind::Input || slot.kind == LayoutSlotKind::Main) {
        return Vec::new();
    }
    let incoming = flag_value(raw);
    let next = if incoming == track.solo { !track.solo } else { incoming };
    track.solo = next;
    push_writes_for_channels(writes, slot, "solo", switch_value(next), MsFormat::Val);
    let mut changed: Vec<(String, JsonValue)> = Vec::new();
    changed.push((owned("solo"), JsonValue::Bool(next)));
    assert(pairs_view(changed@) =~= seq![("solo"@, JsonValue::Bool(next))]);
    changed
}

/// Handles a Console 1 `selected` field: nothing without one; otherwise the selection of
/// `ch.<primary_channel>` is written (1/0) and, for a selection, the sends-mode decision
/// of selecting this slot is returned.
pub fn handle_midi_selected_update(
    parsed: &JsonValue,
    slot: &LayoutSlot,
    primary_channel: usize,
    bus_channel_start: usize,
    writes: &mut Vec<MsWrite>,
) -> (res: Option<Option<usize>>)
    ensures
        match parsed.spec_get("selected"@) {
            None => res is None && final(writes)@ == old(writes)@,
            Some(raw) => {
                &&& writes_view(final(writes)@) == writes_view(old(writes)@).push(
                    (channel_path(primary_channel, "selected"@), switch_json(flag_of(raw)), MsFormat::Val))
                &&& res == if flag_of(raw) {
                    latched_sends_mode(*slot, "selected"@, JsonValue::Bool(true), bus_channel_start)
                } else {
                    None
                }
            },
        },
{
    let raw = match parsed.get("selected") {
        Some(r) => r,
        None => return None,
    };
    let selected = flag_value(raw);
    let sfx = chars_of("selected");
    let path = channel_path_exec(primary_channel, sfx.as_slice());
    writes.push(MsWrite { path, value: switch_value(selected), format: MsFormat::Val });
    assert(writes_view(writes@) =~= writes_view(old(writes)@).push(
        (channel_path(primary_channel, "selected"@), switch_json(selected), MsFormat::Val)));
    if selected {
        maybe_latch_sends_mode_from_selection(slot, "selected", &JsonValue::Bool(true), bus_channel_start)
    } else {
        None
    }
}

fn level_number(bits: u64) -> (res: JsonValue)
    ensures
        res == pan_json(bits),
        is_scalar(res),
{
    let finite = (bits % 0x8000_0000_0000_0000) / 0x10_0000_0000_0000 != 2047;
    assert(((bits as int / crate::json::two_pow_52() as int) % 2048 != 2047) == finite);
    if finite {
        JsonValue::Number(JsonNumber { kind: NumberKind::Float, f64_bits: bits })
    } else {
        JsonValue::Null
    }
}

/// Writes `mix.lvl` (in dB, as `f64` bits) to each of the slot's channels when there is
/// a level.
fn write_mix_lvl_for_slot(writes: &mut Vec<MsWrite>, slot: &LayoutSlot, ms_level_bits: Option<u64>)
    ensures
        writes_view(final(writes)@) == match ms_level_bits {
            Some(b) => writes_view(old(writes)@) + channel_writes(slot.ms_channels@, "mix.lvl"@, pan_json(b), MsFormat::Val),
            None => writes_view(old(writes)@),
        },
{
    if let Some(b) = ms_level_bits {
        push_writes_for_channels(writes, slot, "mix.lvl", level_number(b), MsFormat::Val);
    }
}

/// The Bus/Main fader display in sends mode: the volume is set and mirrored into all six
/// send slots; reports the mirrored changes and the volume.
fn build_bus_main_sends_mode_fader_display_partial(track: &mut TrackInfo, next_volume: JsonValue) -> (res: Vec<(String, JsonValue)>)
    requires
        old(track).wf(),
    ensures
        final(track).wf(),
        *final(track) == (TrackInfo { volume: final(track).volume, send_on: final(track).send_on,
            send_levels: final(track).send_levels, ..*old(track) }),
        json_eq(final(track).volume, next_volume),
        final(track).send_on@ == seq![true, true, true, true, true, true],
        forall|i: int| 0 <= i < 6 ==> if json_eq(old(track).send_levels@[i], next_volume) {
            #[trigger] final(track).send_levels@[i] == old(track).send_levels@[i]
        } else {
            json_eq(final(track).send_levels@[i], next_volume)
        },
        pairs_like(pairs_view(res@), mirror_changes(old(track).send_on@, old(track).send_levels@, next_volume, 6)
            .push(("volume"@, next_volume))),
{
    track.volume = copy_json(&next_volume);
    let mut partial = mirror_console1_send_slots_from_volume(track, &next_volume);
    let ghost before = partial@;
    partial.push((owned("volume"), next_volume));
    proof {
        lemma_json_eq_refl(next_volume);
        let p = pairs_view(partial@);
        let e = mirror_changes(old(track).send_on@, old(track).send_levels@, next_volume, 6).push(("volume"@, next_volume));
        assert forall|k: int| 0 <= k < p.len() implies (#[trigger] p[k]).0 == e[k].0 && json_eq(p[k].1, e[k].1) by {
            if k < before.len() {
                assert(p[k] == pairs_view(before)[k]);
            }
        }
    }
    partial
}

/// The effect of a Console 1 volume change whose value (after numeric-string coercion) is
/// `next_volume`, and whose Mixing Station level is `ms_level_bits`: the volume is set
/// (and, for a Bus/Main slot in sends mode, mirrored into the six send slots, whose
/// changes are reported too) and reported; `mix.lvl` is written to each channel when there
/// is a level.
pub open spec fn midi_volume_applied(
    slot: LayoutSlot,
    old_track: TrackInfo,
    new_track: TrackInfo,
    sends_mode_ms_send_index: Option<usize>,
    next_volume: JsonValue,
    ms_level_bits: Option<u64>,
    old_writes: Seq<(Seq<char>, JsonValue, MsFormat)>,
    new_writes: Seq<(Seq<char>, JsonValue, MsFormat)>,
    changed: Seq<(Seq<char>, JsonValue)>,
) -> bool {
    &&& json_eq(new_track.volume, next_volume)
    &&& new_writes == match ms_level_bits {
        Some(b) => old_writes + channel_writes(slot.ms_channels@, "mix.lvl"@, pan_json(b), MsFormat::Val),
        None => old_writes,
    }
    &&& if sends_mode_ms_send_index is Some && is_bus_or_main(slot.kind) {
        &&& new_track == (TrackInfo { volume: new_track.volume, send_on: new_track.send_on,
            send_levels: new_track.send_levels, ..old_track })
        &&& new_track.send_on@ == seq![true, true, true, true, true, true]
        &&& forall|i: int| 0 <= i < 6 ==> if json_eq(old_track.send_levels@[i], next_volume) {
            #[trigger] new_track.send_levels@[i] == old_track.send_levels@[i]
        } else {
            json_eq(new_track.send_levels@[i], next_volume)
        }
        &&& pairs_like(changed, mirror_changes(old_track.send_on@, old_track.send_levels@, next_volume, 6)
            .push(("volume"@, next_volume)))
    } else {
        &&& new_track == (TrackInfo { volume: new_track.volume, ..old_track })
        &&& pairs_like(changed, seq![("volume"@, next_volume)])
    }
}

/// Applies a Console 1 volume change (see [`midi_volume_applied`]).
pub fn apply_midi_volume_update(
    slot: &LayoutSlot,
    track: &mut TrackInfo,
    sends_mode_ms_send_index: Option<usize>,
    next_volume: JsonValue,
    ms_level_bits: Option<u64>,
    writes: &mut Vec<MsWrite>,
) -> (res: Vec<(String, JsonValue)>)
    requires
        old(track).wf(),
    ensures
        final(track).wf(),
        midi_volume_applied(*slot, *old(track), *final(track), sends_mode_ms_send_index, next_volume, ms_level_bits,
            writes_view(old(writes)@), writes_view(final(writes)@), pairs_view(res@)),
{
    let changed = if sends_mode_ms_send_index.is_some() && (slot.kind == LayoutSlotKind::Bus || slot.kind == LayoutSlotKind::Main) {
        build_bus_main_sends_mode_fader_display_partial(track, next_volume)
    } else {
        track.volume = copy_json(&next_volume);
        let mut c: Vec<(String, JsonValue)> = Vec::new();
        c.push((owned("volume"), next_volume));
        proof {
            lemma_json_eq_refl(next_volume);
            assert(pairs_view(c@) =~= seq![("volume"@, next_volume)]);
        }
        c
    };
    write_mix_lvl_for_slot(writes, slot, ms_level_bits);
    changed
}

/// The first Console 1 send slot (0-based) whose `send<n>` level field is present.
pub open spec fn first_send_level(parsed: JsonValue) -> Option<int> {
    if exists|i: int| 0 <= i < 6 && parsed.spec_get(#[trigger] send_key(i, true)) is Some {
        Some(choose|i: int| 0 <= i < 6 && parsed.spec_get(#[trigger] send_key(i, true)) is Some
            && forall|j: int| 0 <= j < i ==> parsed.spec_get(send_key(j, true)) is None)
    } else {
        None
    }
}

/// Finds the first Console 1 send slot (0-based) with a `send<n>` level field.
pub fn first_send_level_slot(parsed: &JsonValue) -> (res: Option<usize>)
    ensures
        match first_send_level(*parsed) {
            Some(i) => res == Some(i as usize),
            None => res is None,
        },
{
    let mut i: usize = 0;
    while i < 6
        invariant
            i <= 6,
            forall|j: int| 0 <= j < i ==> parsed.spec_get(#[trigger] send_key(j, true)) is None,
        decreases 6 - i,
    {
        let key = send_key_exec(i, true);
        if parsed.get(key.as_str()).is_some() {
            proof {
                let k = choose|k: int| 0 <= k < 6 && parsed.spec_get(#[trigger] send_key(k, true)) is Some
                    && forall|j: int| 0 <= j < k ==> parsed.spec_get(send_key(j, true)) is None;
                assert(k == i as int) by {
                    if k > i {
                        assert(parsed.spec_get(send_key(i as int, true)) is Some);
                    }
                }
            }
            return Some(i);
        }
        i = i + 1;
    }
    None
}

/// Some Console 1 `send<n>On` field is present.
pub open spec fn has_send_switch(parsed: JsonValue) -> bool {
    exists|i: int| 0 <= i < 6 && parsed.spec_get(#[trigger] send_key(i, false)) is Some
}

/// Whether some `send<n>On` field is present.
pub fn any_send_switch(parsed: &JsonValue) -> (res: bool)
    ensures
        res == has_send_switch(*parsed),
{
    let mut i: usize = 0;
    while i < 6
        invariant
            i <= 6,
            forall|j: int| 0 <= j < i ==> parsed.spec_get(#[trigger] send_key(j, false)) is None,
        decreases 6 - i,
    {
        let key = send_key_exec(i, false);
        if parsed.get(key.as_str()).is_some() {
            return true;
        }
        i = i + 1;
    }
    false
}

/// The proxy's effect on a Bus/Main slot in sends mode: the volume becomes the touched
/// level's value (or stays as it is, for a switch touch alone), is mirrored into the six
/// send slots, and is reported with the mirrored fields; `mix.lvl` is written to each
/// channel when the touched level has a Mixing Station level.
pub open spec fn proxy_applied(
    slot: LayoutSlot,
    old_track: TrackInfo,
    new_track: TrackInfo,
    level: Option<(JsonValue, Option<u64>)>,
    old_writes: Seq<(Seq<char>, JsonValue, MsFormat)>,
    new_writes: Seq<(Seq<char>, JsonValue, MsFormat)>,
    changed: Seq<(Seq<char>, JsonValue)>,
) -> bool {
    let next_volume = match level {
        Some(l) => l.0,
        None => old_track.volume,
    };
    &&& new_track == (TrackInfo { volume: new_track.volume, send_on: new_track.send_on,
        send_levels: new_track.send_levels, ..old_track })
    &&& json_eq(new_track.volume, next_volume)
    &&& new_track.send_on@ == seq![true, true, true, true, true, true]
    &&& forall|i: int| 0 <= i < 6 ==> if json_eq(old_track.send_levels@[i], next_volume) {
        #[trigger] new_track.send_levels@[i] == old_track.send_levels@[i]
    } else {
        json_eq(new_track.send_levels@[i], next_volume)
    }
    &&& pairs_like(changed, mirror_changes(old_track.send_on@, old_track.send_levels@, next_volume, 6)
        .push(("volume"@, next_volume)))
    &&& new_writes == match level {
        Some((_, Some(b))) => old_writes + channel_writes(slot.ms_channels@, "mix.lvl"@, pan_json(b), MsFormat::Val),
        _ => old_writes,
    }
}

/// Applies Console 1 send-level/switch touches on a Bus/Main slot in sends mode, where the
/// send slots stand for the fader: nothing outside sends mode, for other slots, or when no
/// send field is present (`level` is the coerced value and Mixing Station level of the
/// first present `send<n>`, if any; `saw_send_switch` whether some `send<n>On` is present).
/// Otherwise the volume (the level, or the current volume when only a switch was touched)
/// is set and mirrored into all six send slots, and the level, if any, is written as
/// `mix.lvl`.
pub fn apply_bus_main_sends_mode_fader_proxy(
    slot: &LayoutSlot,
    track: &mut TrackInfo,
    sends_mode_ms_send_index: Option<usize>,
    level: Option<(JsonValue, Option<u64>)>,
    saw_send_switch: bool,
    writes: &mut Vec<MsWrite>,
) -> (res: Vec<(String, JsonValue)>)
    requires
        old(track).wf(),
    ensures
        final(track).wf(),
        if sends_mode_ms_send_index is None || !is_bus_or_main(slot.kind) || (level is None && !saw_send_switch) {
            *final(track) == *old(track) && final(writes)@ == old(writes)@ && res@.len() == 0
        } else {
            proxy_applied(*slot, *old(track), *final(track), level, writes_view(old(writes)@),
                writes_view(final(writes)@), pairs_view(res@))
        },
{
    if sends_mode_ms_send_index.is_none() || !(slot.kind == LayoutSlotKind::Bus || slot.kind == LayoutSlotKind::Main) {
        return Vec::new();
    }
    if level.is_none() && !saw_send_switch {
        return Vec::new();
    }
    match level {
        Some((v, bits)) => {
            let changed = build_bus_main_sends_mode_fader_display_partial(track, v);
            write_mix_lvl_for_slot(writes, slot, bits);
            changed
        },
        None => {
            let current = copy_json(&track.volume);
            let ghost cur = old(track).volume;
            let changed = build_bus_main_sends_mode_fader_display_partial(track, current);
            proof {
                crate::json::lemma_json_eq_sym(current, cur);
                assert forall|i: int| 0 <= i < 6 implies (json_eq(old(track).send_levels@[i], current) <==> json_eq(old(track).send_levels@[i], cur)) by {
                    if json_eq(old(track).send_levels@[i], current) {
                        crate::json::lemma_json_eq_trans(old(track).send_levels@[i], current, cur);
                    }
                    if json_eq(old(track).send_levels@[i], cur) {
                        crate::json::lemma_json_eq_trans(old(track).send_levels@[i], cur, current);
                    }
                }
                crate::json::lemma_json_eq_trans(track.volume, current, cur);
                assert forall|i: int| 0 <= i < 6 && !json_eq(old(track).send_levels@[i], cur) implies json_eq(#[trigger] track.send_levels@[i], cur) by {
                    crate::json::lemma_json_eq_trans(track.send_levels@[i], current, cur);
                }
                lemma_mirror_changes_like(old(track).send_on@, old(track).send_levels@, current, cur, 6);
                let p = pairs_view(changed@);
                let a = mirror_changes(old(track).send_on@, old(track).send_levels@, current, 6).push(("volume"@, current));
                let b = mirror_changes(old(track).send_on@, old(track).send_levels@, cur, 6).push(("volume"@, cur));
                assert forall|k: int| 0 <= k < p.len() implies (#[trigger] p[k]).0 == b[k].0 && json_eq(p[k].1, b[k].1) by {
                    assert(p[k].0 == a[k].0 && json_eq(p[k].1, a[k].1));
                    crate::json::lemma_json_eq_trans(p[k].1, a[k].1, b[k].1);
                }
            }
            changed
        },
    }
}

/// Mirroring structurally equal volumes lists the same changes, structurally equal.
proof fn lemma_mirror_changes_like(on: Seq<bool>, levels: Seq<JsonValue>, a: JsonValue, b: JsonValue, n: int)
    requires
        json_eq(a, b),
        0 <= n <= levels.len(),
        n <= on.len(),
    ensures
        pairs_like(mirror_changes(on, levels, a, n), mirror_changes(on, levels, b, n)),
    decreases n,
{
    if n > 0 {
        lemma_mirror_changes_like(on, levels, a, b, n - 1);
        let i = n - 1;
        crate::json::lemma_json_eq_sym(a, b);
        if json_eq(levels[i], a) {
            crate::json::lemma_json_eq_trans(levels[i], a, b);
        }
        if json_eq(levels[i], b) {
            crate::json::lemma_json_eq_trans(levels[i], b, a);
        }
        lemma_json_eq_refl(JsonValue::Bool(true));
        let x = mirror_changes(on, levels, a, n);
        let y = mirror_changes(on, levels, b, n);
        let x0 = mirror_changes(on, levels, a, n - 1);
        let y0 = mirror_changes(on, levels, b, n - 1);
        assert forall|k: int| 0 <= k < x.len() implies (#[trigger] x[k]).0 == y[k].0 && json_eq(x[k].1, y[k].1) by {
            if k < x0.len() {
                assert(x[k] == x0[k] && y[k] == y0[k]);
            }
        }
    }
}

/// The writes of Console 1 send slots `0..n` on an Input slot: per slot, the level (when
/// given with a Mixing Station level) to `mix.sends.<index>.lvl`, then the switch (when a
/// `send<n>On` field is present) to `mix.sends.<index>.on`, `<index>` being the slot's MS
/// send index.
pub open spec fn send_slot_writes(
    slot: LayoutSlot,
    ms_index: Seq<usize>,
    levels: Seq<Option<(JsonValue, Option<u64>)>>,
    parsed: JsonValue,
    n: int,
) -> Seq<(Seq<char>, JsonValue, MsFormat)>
    decreases n,
{
    if n <= 0 {
        Seq::empty()
    } else {
        let i = n - 1;
        let idx = ms_index[i];
        send_slot_writes(slot, ms_index, levels, parsed, i)
            + match levels[i] {
                Some((_, Some(b))) => channel_writes(slot.ms_channels@, send_suffix(idx, "lvl"@), pan_json(b), MsFormat::Val),
                _ => Seq::empty(),
            }
            + match parsed.spec_get(send_key(i, false)) {
                Some(raw) => channel_writes(slot.ms_channels@, send_suffix(idx, "on"@), switch_json(flag_of(raw)), MsFormat::Val),
                None => Seq::empty(),
            }
    }
}

/// The level fields reported for Console 1 send slots `0..n`: `send<n>` for each given level.
pub open spec fn send_slot_changes(levels: Seq<Option<(JsonValue, Option<u64>)>>, n: int) -> Seq<(Seq<char>, JsonValue)>
    decreases n,
{
    if n <= 0 {
        Seq::empty()
    } else {
        let i = n - 1;
        send_slot_changes(levels, i) + match levels[i] {
            Some((v, _)) => seq![(send_key(i, true), v)],
            None => Seq::empty(),
        }
    }
}

/// The effect of send-slot touches: none on a slot other than an Input; on an Input, each
/// given level is stored and reported, and the writes are [`send_slot_writes`].
pub open spec fn send_slots_applied(
    parsed: JsonValue,
    slot: LayoutSlot,
    ms_index: Seq<usize>,
    levels: Seq<Option<(JsonValue, Option<u64>)>>,
    old_track: TrackInfo,
    new_track: TrackInfo,
    old_writes: Seq<(Seq<char>, JsonValue, MsFormat)>,
    new_writes: Seq<(Seq<char>, JsonValue, MsFormat)>,
    changed: Seq<(Seq<char>, JsonValue)>,
) -> bool {
    if slot.kind != LayoutSlotKind::Input {
        new_track == old_track && new_writes == old_writes && changed.len() == 0
    } else {
        &&& new_track == (TrackInfo { send_levels: new_track.send_levels, ..old_track })
        &&& forall|i: int| 0 <= i < 6 ==> match #[trigger] levels[i] {
            Some((v, _)) => json_eq(new_track.send_levels@[i], v),
            None => new_track.send_levels@[i] == old_track.send_levels@[i],
        }
        &&& pairs_like(changed, send_slot_changes(levels, 6))
        &&& new_writes == old_writes + send_slot_writes(slot, ms_index, levels, parsed, 6)
    }
}

/// Applies Console 1 send-slot touches on an Input slot: `levels[i]` is the coerced value
/// and Mixing Station level of a present `send<i+1>` field. Each given level is stored and
/// reported (switches are Console 1's own state and are only forwarded); the writes are
/// [`send_slot_writes`]. Other slots: nothing.
pub fn apply_midi_send_slots_update(
    parsed: &JsonValue,
    slot: &LayoutSlot,
    track: &mut TrackInfo,
    mapping: &SendMapping,
    levels: Vec<Option<(JsonValue, Option<u64>)>>,
    writes: &mut Vec<MsWrite>,
) -> (res: Vec<(String, JsonValue)>)
    requires
        old(track).wf(),
        levels@.len() == 6,
    ensures
        final(track).wf(),
        send_slots_applied(*parsed, *slot, mapping.c1_to_ms_send_index@, levels@, *old(track), *final(track),
            writes_view(old(writes)@), writes_view(final(writes)@), pairs_view(res@)),
{
    if slot.kind != LayoutSlotKind::Input {
        return Vec::new();
    }
    let ghost lv = levels@;
    let mut levels = levels;
    let mut changed: Vec<(String, JsonValue)> = Vec::new();
    let mut i: usize = 0;
    while i < 6
        invariant
            i <= 6,
            levels@.len() == 6,
            lv.len() == 6,
            forall|j: int| i <= j < 6 ==> #[trigger] levels@[j] == lv[j],
            track.wf(),
            *track == (TrackInfo { send_levels: track.send_levels, ..*old(track) }),
            forall|j: int| 0 <= j < i ==> match #[trigger] lv[j] {
                Some((v, _)) => json_eq(track.send_levels@[j], v),
                None => track.send_levels@[j] == old(track).send_levels@[j],
            },
            forall|j: int| i <= j < 6 ==> #[trigger] track.send_levels@[j] == old(track).send_levels@[j],
            pairs_like(pairs_view(changed@), send_slot_changes(lv, i as int)),
            writes_view(writes@) == writes_view(old(writes)@) + send_slot_writes(*slot, mapping.c1_to_ms_send_index@, lv, *parsed, i as int),
            slot.kind == LayoutSlotKind::Input,
        decreases 6 - i,
    {
        let idx = mapping.c1_to_ms_send_index[i];
        let ghost changed_before = changed@;
        let ghost writes_before = writes_view(writes@);
        let entry = levels.remove(i);
        levels.insert(i, None);
        match entry {
            Some((v, bits)) => {
                let stored = copy_json(&v);
                track.send_levels.set(i, stored);
                changed.push((send_key_exec(i, true), v));
                if let Some(b) = bits {
                    let suffix = send_suffix_exec(idx, "lvl");
                    push_writes_for_channels(writes, slot, suffix.as_str(), level_number(b), MsFormat::Val);
                }
            },
            None => {},
        }
        let ghost writes_mid = writes_view(writes@);
        let on_key = send_key_exec(i, false);
        if let Some(raw) = parsed.get(on_key.as_str()) {
            let on = flag_value(raw);
            let suffix = send_suffix_exec(idx, "on");
            push_writes_for_channels(writes, slot, suffix.as_str(), switch_value(on), MsFormat::Val);
        }
        proof {
            lemma_json_eq_refl(JsonValue::Bool(true));
            let p = pairs_view(changed@);
            let e = send_slot_changes(lv, i + 1);
            assert forall|k: int| 0 <= k < p.len() implies (#[trigger] p[k]).0 == e[k].0 && json_eq(p[k].1, e[k].1) by {
                if k < changed_before.len() {
                    assert(p[k] == pairs_view(changed_before)[k]);
                } else {
                    lemma_json_eq_refl(p[k].1);
                }
            }
            assert(writes_view(writes@) =~= writes_view(old(writes)@) + send_slot_writes(*slot, mapping.c1_to_ms_send_index@, lv, *parsed, i + 1));
        }
        i = i + 1;
    }
    changed
}

/// A Console 1 volume change: nothing when `volume` is absent; otherwise `level_of` reads
/// the raw value into its coerced value and its Mixing Station level, and the change is
/// applied as [`midi_volume_applied`] says.
pub fn handle_midi_volume_update<F: Fn(&JsonValue) -> (JsonValue, Option<u64>)>(
    parsed: &JsonValue,
    slot: &LayoutSlot,
    track: &mut TrackInfo,
    sends_mode_ms_send_index: Option<usize>,
    writes: &mut Vec<MsWrite>,
    level_of: F,
) -> (res: Vec<(String, JsonValue)>)
    requires
        old(track).wf(),
        forall|r: &JsonValue| level_of.requires((r,)),
    ensures
        final(track).wf(),
        match parsed.spec_get("volume"@) {
            None => *final(track) == *old(track) && final(writes)@ == old(writes)@ && res@.len() == 0,
            Some(raw) => exists|lv: (JsonValue, Option<u64>)| #[trigger] level_of.ensures((&raw,), lv)
                && midi_volume_applied(*slot, *old(track), *final(track), sends_mode_ms_send_index, lv.0, lv.1,
                    writes_view(old(writes)@), writes_view(final(writes)@), pairs_view(res@)),
        },
{
    let raw = match parsed.get("volume") {
        Some(r) => r,
        None => return Vec::new(),
    };
    let lv = level_of(raw);
    let ghost g = lv;
    let (next, bits) = lv;
    apply_midi_volume_update(slot, track, sends_mode_ms_send_index, next, bits, writes)
}

/// The Bus/Main sends-mode fader proxy: while sends mode is active on a Bus/Main slot, a
/// touched send level (the first `send<n>` present, read by `level_of`) or send switch
/// moves the slot's volume, as [`apply_bus_main_sends_mode_fader_proxy`] says.
pub fn handle_midi_bus_main_sends_mode_fader_proxy<F: Fn(&JsonValue) -> (JsonValue, Option<u64>)>(
    parsed: &JsonValue,
    slot: &LayoutSlot,
    track: &mut TrackInfo,
    sends_mode_ms_send_index: Option<usize>,
    writes: &mut Vec<MsWrite>,
    level_of: F,
) -> (res: Vec<(String, JsonValue)>)
    requires
        old(track).wf(),
        forall|r: &JsonValue| level_of.requires((r,)),
    ensures
        final(track).wf(),
        sends_mode_ms_send_index is None || !is_bus_or_main(slot.kind) ==> *final(track) == *old(track)
            && final(writes)@ == old(writes)@ && res@.len() == 0,
        first_send_level(*parsed) is None && !has_send_switch(*parsed) ==> *final(track) == *old(track)
            && final(writes)@ == old(writes)@ && res@.len() == 0,
        sends_mode_ms_send_index is Some && is_bus_or_main(slot.kind) ==> match first_send_level(*parsed) {
            Some(i) => exists|lv: (JsonValue, Option<u64>)|
                #[trigger] level_of.ensures((&parsed.spec_get(send_key(i, true)).unwrap(),), lv)
                && proxy_applied(*slot, *old(track), *final(track), Some(lv),
                    writes_view(old(writes)@), writes_view(final(writes)@), pairs_view(res@)),
            None => has_send_switch(*parsed) ==> proxy_applied(*slot, *old(track), *final(track), None,
                writes_view(old(writes)@), writes_view(final(writes)@), pairs_view(res@)),
        },
{
    if sends_mode_ms_send_index.is_none() || !(slot.kind == LayoutSlotKind::Bus || slot.kind == LayoutSlotKind::Main) {
        return Vec::new();
    }
    let first = first_send_level_slot(parsed);
    let level = match first {
        Some(i) => {
            let key = send_key_exec(i, true);
            match parsed.get(key.as_str()) {
                Some(raw) => Some(level_of(raw)),
                None => None,
            }
        },
        None => None,
    };
    let ghost lv = level;
    let saw = any_send_switch(parsed);
    let res = apply_bus_main_sends_mode_fader_proxy(slot, track, sends_mode_ms_send_index, level, saw, writes);
    proof {
        if let Some(i) = first {
            let raw = parsed.spec_get(send_key(i as int, true));
            assert(raw is Some);
            assert(lv is Some);
            assert(level_of.ensures((&raw.unwrap(),), lv.unwrap()));
        }
    }
    res
}

/// Console 1 send-slot touches: `level_of` reads each present `send<n>` level into its
/// coerced value and Mixing Station level; the touches are applied as
/// [`apply_midi_send_slots_update`] says.
pub fn handle_midi_send_slots_update<F: Fn(&JsonValue) -> (JsonValue, Option<u64>)>(
    parsed: &JsonValue,
    slot: &LayoutSlot,
    track: &mut TrackInfo,
    mapping: &SendMapping,
    writes: &mut Vec<MsWrite>,
    level_of: F,
) -> (res: Vec<(String, JsonValue)>)
    requires
        old(track).wf(),
        forall|r: &JsonValue| level_of.requires((r,)),
    ensures
        final(track).wf(),
        exists|levels: Seq<Option<(JsonValue, Option<u64>)>>| {
            &&& levels.len() == 6
            &&& forall|i: int| 0 <= i < 6 ==> match parsed.spec_get(send_key(i, true)) {
                None => #[trigger] levels[i] is None,
                Some(raw) => levels[i] matches Some(lv) && level_of.ensures((&raw,), lv),
            }
            &&& send_slots_applied(*parsed, *slot, mapping.c1_to_ms_send_index@, levels, *old(track), *final(track),
                writes_view(old(writes)@), writes_view(final(writes)@), pairs_view(res@))
        },
{
    let mut levels: Vec<Option<(JsonValue, Option<u64>)>> = Vec::new();
    let mut i: usize = 0;
    while i < 6
        invariant
            i <= 6,
            levels@.len() == i,
            forall|r: &JsonValue| level_of.requires((r,)),
            forall|j: int| 0 <= j < i ==> match parsed.spec_get(send_key(j, true)) {
                None => #[trigger] levels@[j] is None,
                Some(raw) => levels@[j] matches Some(lv) && level_of.ensures((&raw,), lv),
            },
        decreases 6 - i,
    {
        let key = send_key_exec(i, true);
        let l = match parsed.get(key.as_str()) {
            Some(raw) => Some(level_of(raw)),
            None => None,
        };
        levels.push(l);
        i = i + 1;
    }
    let ghost lv = levels@;
    let res = apply_midi_send_slots_update(parsed, slot, track, mapping, levels, writes);
    assert(send_slots_applied(*parsed, *slot, mapping.c1_to_ms_send_index@, lv, *old(track), *final(track),
        writes_view(old(writes)@), writes_view(final(writes)@), pairs_view(res@)));
    res
}

/// The Console 1 pan knob's position for a raw `pan` value: its number clamped to 0..1
/// (centre, 0.5, when it is not a number).
pub open spec fn knob_pan_of(raw: JsonValue) -> u64 {
    clamp01_bits(match raw.spec_as_f64_bits() {
        Some(b) => b,
        None => F64_HALF_BITS,
    })
}

/// The two dual-mono pan writes of a stereo-linked pair: `lr.0` to the left channel's
/// and `lr.1` to the right channel's `<suffix>`.
pub open spec fn dual_pan_writes(chs: Seq<usize>, suffix: Seq<char>, lr: (u64, u64)) -> Seq<(Seq<char>, JsonValue, MsFormat)> {
    seq![
        (channel_path(chs[0], suffix), pan_json(lr.0), MsFormat::Norm),
        (channel_path(chs[1], suffix), pan_json(lr.1), MsFormat::Norm),
    ]
}

/// A slot whose two channels are driven by one hybrid stereo pan knob.
pub open spec fn is_stereo_linked_pair(slot: LayoutSlot) -> bool {
    slot.pan_locked && slot.ms_channels@.len() == 2
}

/// The effect of a Console 1 pan change with knob position `knob` (and, for a stereo
/// pair, dual-mono pans `lr`): a Bus/Main slot stores and reports the knob and writes
/// `mix.pan` (dual-mono for a pair, else on the primary channel); an Input slot in sends
/// mode stores and reports it and writes the active send's pan (dual-mono for a pair, else
/// on each channel); an Input slot in standard mode stores, reports and writes dual-mono
/// `mix.pan` for a pair, and otherwise only writes `mix.pan` on the primary channel.
/// Other slots: nothing.
pub open spec fn midi_pan_applied(
    slot: LayoutSlot,
    primary_channel: usize,
    sends_mode_ms_send_index: Option<usize>,
    knob: u64,
    lr: (u64, u64),
    old_track: TrackInfo,
    new_track: TrackInfo,
    old_writes: Seq<(Seq<char>, JsonValue, MsFormat)>,
    new_writes: Seq<(Seq<char>, JsonValue, MsFormat)>,
    changed: Seq<(Seq<char>, JsonValue)>,
) -> bool {
    let stored = new_track == (TrackInfo { pan_bits: knob, ..old_track }) && pairs_like(changed, seq![("pan"@, pan_json(knob))]);
    let single = seq![(channel_path(primary_channel, "mix.pan"@), pan_json(knob), MsFormat::Norm)];
    if slot.kind != LayoutSlotKind::Input {
        if !is_bus_or_main(slot.kind) {
            new_track == old_track && new_writes == old_writes && changed.len() == 0
        } else {
            stored && new_writes == old_writes + if is_stereo_linked_pair(slot) {
                dual_pan_writes(slot.ms_channels@, "mix.pan"@, lr)
            } else {
                single
            }
        }
    } else {
        match sends_mode_ms_send_index {
            Some(s) => stored && new_writes == old_writes + if is_stereo_linked_pair(slot) {
                dual_pan_writes(slot.ms_channels@, send_suffix(s, "pan"@), lr)
            } else {
                channel_writes(slot.ms_channels@, send_suffix(s, "pan"@), pan_json(knob), MsFormat::Norm)
            },
            None => if is_stereo_linked_pair(slot) {
                stored && new_writes == old_writes + dual_pan_writes(slot.ms_channels@, "mix.pan"@, lr)
            } else {
                new_track == old_track && changed.len() == 0 && new_writes == old_writes + single
            },
        }
    }
}

fn push_dual_mono_pan_writes(writes: &mut Vec<MsWrite>, slot: &LayoutSlot, lr: (u64, u64), suffix: &[char])
    requires
        slot.ms_channels@.len() == 2,
    ensures
        writes_view(final(writes)@) == writes_view(old(writes)@) + dual_pan_writes(slot.ms_channels@, suffix@, lr),
{
    let left = channel_path_exec(slot.ms_channels[0], suffix);
    let right = channel_path_exec(slot.ms_channels[1], suffix);
    writes.push(MsWrite { path: left, value: level_number(lr.0), format: MsFormat::Norm });
    writes.push(MsWrite { path: right, value: level_number(lr.1), format: MsFormat::Norm });
    assert(writes_view(final(writes)@) =~= writes_view(old(writes)@) + dual_pan_writes(slot.ms_channels@, suffix@, lr));
}

fn store_pan(track: &mut TrackInfo, knob: u64) -> (res: Vec<(String, JsonValue)>)
    ensures
        *final(track) == (TrackInfo { pan_bits: knob, ..*old(track) }),
        pairs_like(pairs_view(res@), seq![("pan"@, pan_json(knob))]),
{
    track.pan_bits = knob;
    let v = level_number(knob);
    let mut c: Vec<(String, JsonValue)> = Vec::new();
    c.push((owned("pan"), v));
    proof {
        lemma_json_eq_refl(v);
        reveal_strlit("pan");
        assert(pairs_view(c@) =~= seq![("pan"@, pan_json(knob))]);
    }
    c
}

/// A Console 1 pan change: nothing when `pan` is absent; otherwise the knob position
/// ([`knob_pan_of`]) is applied as [`midi_pan_applied`] says, `dual_mono` giving a
/// stereo-linked pair's left and right pans for it.
pub fn handle_midi_pan_update<F: Fn(u64) -> (u64, u64)>(
    parsed: &JsonValue,
    slot: &LayoutSlot,
    track: &mut TrackInfo,
    primary_channel: usize,
    sends_mode_ms_send_index: Option<usize>,
    writes: &mut Vec<MsWrite>,
    dual_mono: F,
) -> (res: Vec<(String, JsonValue)>)
    requires
        forall|x: u64| dual_mono.requires((x,)),
    ensures
        match parsed.spec_get("pan"@) {
            None => *final(track) == *old(track) && final(writes)@ == old(writes)@ && res@.len() == 0,
            Some(raw) => exists|lr: (u64, u64)|
                (is_stereo_linked_pair(*slot) ==> dual_mono.ensures((knob_pan_of(raw),), lr))
                && #[trigger] midi_pan_applied(*slot, primary_channel, sends_mode_ms_send_index, knob_pan_of(raw), lr,
                    *old(track), *final(track), writes_view(old(writes)@), writes_view(final(writes)@), pairs_view(res@)),
        },
{
    let raw = match parsed.get("pan") {
        Some(r) => r,
        None => return Vec::new(),
    };
    let knob = clamp01(match raw.as_f64_bits() {
        Some(b) => b,
        None => F64_HALF_BITS,
    });
    assert(knob == knob_pan_of(*raw));
    let pair = slot.pan_locked && slot.ms_channels.len() == 2;
    assert(pair == is_stereo_linked_pair(*slot));
    let lr: (u64, u64) = if pair { dual_mono(knob) } else { (0, 0) };
    let mix_pan = chars_of("mix.pan");
    proof {
        reveal_strlit("mix.pan");
    }
    let res = if slot.kind != LayoutSlotKind::Input {
        if !(slot.kind == LayoutSlotKind::Bus || slot.kind == LayoutSlotKind::Main) {
            Vec::new()
        } else {
            let changed = store_pan(track, knob);
            if pair {
                push_dual_mono_pan_writes(writes, slot, lr, mix_pan.as_slice());
            } else {
                let path = channel_path_exec(primary_channel, mix_pan.as_slice());
                let ghost before = writes@;
                writes.push(MsWrite { path, value: level_number(knob), format: MsFormat::Norm });
                assert(writes_view(writes@) =~= writes_view(before)
                    + seq![(channel_path(primary_channel, "mix.pan"@), pan_json(knob), MsFormat::Norm)]);
            }
            assert(midi_pan_applied(*slot, primary_channel, sends_mode_ms_send_index, knob, lr,
                *old(track), *track, writes_view(old(writes)@), writes_view(writes@), pairs_view(changed@)));
            changed
        }
    } else {
        match sends_mode_ms_send_index {
            Some(s) => {
                let changed = store_pan(track, knob);
                let suffix = send_suffix_exec(s, "pan");
                if pair {
                    let sfx = chars_of(suffix.as_str());
                    push_dual_mono_pan_writes(writes, slot, lr, sfx.as_slice());
                } else {
                    push_writes_for_channels(writes, slot, suffix.as_str(), level_number(knob), MsFormat::Norm);
                }
                assert(midi_pan_applied(*slot, primary_channel, sends_mode_ms_send_index, knob, lr,
                    *old(track), *track, writes_view(old(writes)@), writes_view(writes@), pairs_view(changed@)));
                changed
            },
            None => {
                if pair {
                    let changed = store_pan(track, knob);
                    push_dual_mono_pan_writes(writes, slot, lr, mix_pan.as_slice());
                    assert(midi_pan_applied(*slot, primary_channel, sends_mode_ms_send_index, knob, lr,
                    *old(track), *track, writes_view(old(writes)@), writes_view(writes@), pairs_view(changed@)));
                    changed
                } else {
                    let path = channel_path_exec(primary_channel, mix_pan.as_slice());
                    writes.push(MsWrite { path, value: level_number(knob), format: MsFormat::Norm });
                    assert(writes_view(writes@) =~= writes_view(old(writes)@)
                        + seq![(channel_path(primary_channel, "mix.pan"@), pan_json(knob), MsFormat::Norm)]);
                    let e: Vec<(String, JsonValue)> = Vec::new();
                assert(midi_pan_applied(*slot, primary_channel, sends_mode_ms_send_index, knob, lr,
                    *old(track), *track, writes_view(old(writes)@), writes_view(writes@), pairs_view(e@)));
                    e
                }
            },
        }
    };
    proof {
        reveal_strlit("mix.pan");
        assert(midi_pan_applied(*slot, primary_channel, sends_mode_ms_send_index, knob_pan_of(*raw), lr,
            *old(track), *track, writes_view(old(writes)@), writes_view(writes@), pairs_view(res@)));
    }
    res
}

/// A pan change on a stereo-linked pair (a Bus or Main pair, or an Input pair outside
/// sends mode) pans both of its channels: exactly two writes are added, `mix.pan` of the
/// left channel with the left dual-mono pan, then `mix.pan` of the right channel with the
/// right one; the track keeps the knob position.
pub proof fn lemma_stereo_pair_pan_writes_both_channels(
    slot: LayoutSlot,
    primary_channel: usize,
    sends_mode_ms_send_index: Option<usize>,
    knob: u64,
    lr: (u64, u64),
    old_track: TrackInfo,
    new_track: TrackInfo,
    old_writes: Seq<(Seq<char>, JsonValue, MsFormat)>,
    new_writes: Seq<(Seq<char>, JsonValue, MsFormat)>,
    changed: Seq<(Seq<char>, JsonValue)>,
)
    requires
        midi_pan_applied(slot, primary_channel, sends_mode_ms_send_index, knob, lr, old_track, new_track, old_writes,
            new_writes, changed),
        slot.kind == LayoutSlotKind::Bus || slot.kind == LayoutSlotKind::Main
            || (slot.kind == LayoutSlotKind::Input && sends_mode_ms_send_index is None),
        slot.pan_locked,
        slot.ms_channels@.len() == 2,
    ensures
        new_writes.len() == old_writes.len() + 2,
        new_writes.take(old_writes.len() as int) == old_writes,
        new_writes[old_writes.len() as int]
            == ("ch."@ + decimal(slot.ms_channels@[0] as nat) + ".mix.pan"@, pan_json(lr.0), MsFormat::Norm),
        new_writes[old_writes.len() as int + 1]
            == ("ch."@ + decimal(slot.ms_channels@[1] as nat) + ".mix.pan"@, pan_json(lr.1), MsFormat::Norm),
        new_track.pan_bits == knob,
{
    let n = old_writes.len() as int;
    assert(new_writes.take(n) =~= old_writes);
    reveal_strlit(".");
    reveal_strlit("mix.pan");
    reveal_strlit(".mix.pan");
    assert("."@ + "mix.pan"@ =~= ".mix.pan"@);
    let d0 = decimal(slot.ms_channels@[0] as nat);
    let d1 = decimal(slot.ms_channels@[1] as nat);
    assert("ch."@ + d0 + "."@ + "mix.pan"@ =~= "ch."@ + d0 + ("."@ + "mix.pan"@));
    assert("ch."@ + d1 + "."@ + "mix.pan"@ =~= "ch."@ + d1 + ("."@ + "mix.pan"@));
    assert(channel_path(slot.ms_channels@[0], "mix.pan"@) =~= "ch."@ + decimal(slot.ms_channels@[0] as nat) + ".mix.pan"@);
    assert(channel_path(slot.ms_channels@[1], "mix.pan"@) =~= "ch."@ + decimal(slot.ms_channels@[1] as nat) + ".mix.pan"@);
}

} // verus!
