//! Sends mode: latching it from a Bus/Main selection, how input-track updates map onto
//! Console 1 fields while it is active, and the Bus/Main send-slot display.

use crate::dsp_field_metadata::F64_HALF_BITS;
use crate::json::{JsonValue, copy_json, f64_eq, f64_equal, json_eq, json_equal, lemma_json_eq_refl, lemma_json_eq_sym, lemma_json_eq_trans};
use crate::keyed::pairs_view;
use crate::ms_param_apply::{flag_of, flag_value, pairs_like, pan_json, send_key, send_key_exec};
use crate::send_mapping::SendMapping;
use crate::text::{append_chars, chars_eq, chars_of, decimal, decimal_chars, owned, str_eq};
use crate::track_cache::{TrackInfo, json_zero};
use crate::track_layout::{LayoutSlot, LayoutSlotKind};
use std::collections::HashMap;
use vstd::prelude::*;

verus! {

broadcast use vstd::std_specs::hash::group_hash_axioms;

/// Sends mode is active exactly when an MS send index is latched.
pub fn is_sends_mode_active(sends_mode_ms_send_index: Option<usize>) -> (res: bool)
    ensures
        res == (sends_mode_ms_send_index is Some),
{
    sends_mode_ms_send_index.is_some()
}

/// The sends-mode state a `selected` update decides, if any: selecting a Bus with a primary
/// channel latches its send index (primary minus the bus start, floored at 0), selecting
/// Main leaves sends mode; anything else (another path, a non-`true` value, another slot
/// kind, a Bus without primary) decides nothing.
pub open spec fn latched_sends_mode(slot: LayoutSlot, param_path: Seq<char>, value: JsonValue, bus_channel_start: usize) -> Option<Option<usize>> {
    if param_path != "selected"@ || !value.is_true() {
        None
    } else {
        match slot.kind {
            LayoutSlotKind::Bus => match slot.ms_primary {
                Some(p) => Some(Some(if p >= bus_channel_start { (p - bus_channel_start) as usize } else { 0 })),
                None => None,
            },
            LayoutSlotKind::Main => Some(None),
            _ => None,
        }
    }
}

/// Given a `"selected"` update on a slot, decide the new sends-mode state:
/// `Some(Some(index))` to enter sends mode, `Some(None)` to leave it, `None` if this update
/// does not affect sends mode.
pub fn maybe_latch_sends_mode_from_selection(
    slot: &LayoutSlot,
    param_path: &str,
    value: &JsonValue,
    bus_channel_start: usize,
) -> (res: Option<Option<usize>>)
    ensures
        res == latched_sends_mode(*slot, param_path@, *value, bus_channel_start),
{
    if !str_eq(param_path, "selected") || value.as_bool() != Some(true) {
        return None;
    }
    match slot.kind {
        LayoutSlotKind::Bus => match slot.ms_primary {
            Some(p) => Some(Some(p.saturating_sub(bus_channel_start))),
            None => None,
        },
        LayoutSlotKind::Main => Some(None),
        _ => None,
    }
}

/// Selecting a Bus latches the send index of its primary channel `p`: `p` minus the bus
/// start (for a `p` at or after it), whatever the slot's other channels; so two Bus slots
/// with the same primary channel latch the same send.
pub proof fn lemma_bus_selection_latches_primary_send(slot: LayoutSlot, other: LayoutSlot, bus_channel_start: usize)
    requires
        slot.kind == LayoutSlotKind::Bus,
        other.kind == LayoutSlotKind::Bus,
        slot.ms_primary is Some,
        other.ms_primary == slot.ms_primary,
        slot.ms_primary->Some_0 >= bus_channel_start,
    ensures
        latched_sends_mode(slot, "selected"@, JsonValue::Bool(true), bus_channel_start)
            == Some(Some((slot.ms_primary->Some_0 - bus_channel_start) as usize)),
        latched_sends_mode(other, "selected"@, JsonValue::Bool(true), bus_channel_start)
            == latched_sends_mode(slot, "selected"@, JsonValue::Bool(true), bus_channel_start),
{
}

/// Per MS input channel, the last known on/off and pan (as an `f64` bit pattern) of the
/// active send.
#[derive(Debug)]
pub struct InputSendState {
    state: HashMap<usize, (Option<bool>, Option<u64>)>,
}

impl InputSendState {
    /// The recorded states, by MS channel.
    pub closed spec fn states(&self) -> Map<usize, (Option<bool>, Option<u64>)> {
        self.state@
    }

    pub fn new() -> (res: Self)
        ensures
            res.states() == Map::<usize, (Option<bool>, Option<u64>)>::empty(),
    {
        InputSendState { state: HashMap::new() }
    }

    pub fn clear(&mut self)
        ensures
            final(self).states() == Map::<usize, (Option<bool>, Option<u64>)>::empty(),
    {
        self.state.clear();
    }

    /// The recorded state of a channel, if any.
    pub fn get(&self, channel_index: usize) -> (res: Option<(Option<bool>, Option<u64>)>)
        ensures
            match res {
                Some(e) => self.states().contains_key(channel_index) && self.states()[channel_index] == e,
                None => !self.states().contains_key(channel_index),
            },
    {
        match self.state.get(&channel_index) {
            Some(e) => Some(*e),
            None => None,
        }
    }

    /// The entry of a channel, with nothing recorded where there is none yet.
    pub open spec fn entry_of(&self, channel_index: usize) -> (Option<bool>, Option<u64>) {
        if self.states().contains_key(channel_index) { self.states()[channel_index] } else { (None, None) }
    }

    fn record(&mut self, channel_index: usize, on: Option<bool>, pan: Option<u64>)
        ensures
            final(self).states() == old(self).states().insert(channel_index, (
                match on { Some(b) => Some(b), None => old(self).entry_of(channel_index).0 },
                match pan { Some(p) => Some(p), None => old(self).entry_of(channel_index).1 },
            )),
    {
        let cur = match self.state.get(&channel_index) {
            Some(e) => *e,
            None => (None, None),
        };
        let next_on = match on {
            Some(b) => Some(b),
            None => cur.0,
        };
        let next_pan = match pan {
            Some(p) => Some(p),
            None => cur.1,
        };
        self.state.insert(channel_index, (next_on, next_pan));
    }
}

/// What an input-track update does while sends mode may be active.
#[derive(Debug)]
pub enum SendsModeInputUpdateOutcome {
    /// Not an input slot, sends mode inactive, or an unrelated path: standard routing applies.
    NotHandled,
    /// A standard `mix.on`/`mix.pan` update while sends mode is active: consumed, with no
    /// Console 1 change (standard mute and pan are hidden in sends mode).
    Suppressed,
    /// Applied to the track; `changed` holds the track-batch fields that changed.
    Applied { changed: Vec<(String, JsonValue)> },
}

/// `mix.sends.<index>.<kind>`.
pub open spec fn send_path(ms_send_index: usize, kind: Seq<char>) -> Seq<char> {
    "mix.sends."@ + decimal(ms_send_index as nat) + "."@ + kind
}

fn send_path_exec(ms_send_index: usize, kind: &str) -> (res: Vec<char>)
    ensures
        res@ == send_path(ms_send_index, kind@),
{
    let mut out = chars_of("mix.sends.");
    let d = decimal_chars(ms_send_index as u64);
    append_chars(&mut out, d.as_slice());
    let dot = chars_of(".");
    append_chars(&mut out, dot.as_slice());
    let k = chars_of(kind);
    append_chars(&mut out, k.as_slice());
    out
}

/// The effect of an input-track update while sends mode may be active:
/// - not an Input slot, or sends mode inactive: not handled;
/// - `mix.on` / `mix.pan`: suppressed;
/// - the active send's `on`: recorded for the channel; with a Console 1 slot mapped to
///   the send, that slot's switch follows it and the mute LED shows its inverse (each
///   reported only when it changes);
/// - the active send's `pan` (0.5 when not a number): recorded; unless the slot is a
///   pan-locked stereo pair, the track's pan follows it (reported when it changes);
/// - anything else: not handled.
pub open spec fn sends_mode_input_applied(
    slot: LayoutSlot,
    channel_index: usize,
    param_path: Seq<char>,
    value: JsonValue,
    sends_mode_ms_send_index: Option<usize>,
    mapping: Map<usize, usize>,
    old_track: TrackInfo,
    new_track: TrackInfo,
    old_state: InputSendState,
    new_state: InputSendState,
    res: SendsModeInputUpdateOutcome,
) -> bool {
    if slot.kind != LayoutSlotKind::Input || sends_mode_ms_send_index is None {
        res is NotHandled && new_track == old_track && new_state == old_state
    } else if param_path == "mix.on"@ || param_path == "mix.pan"@ {
        res is Suppressed && new_track == old_track && new_state == old_state
    } else {
        let idx = sends_mode_ms_send_index.unwrap();
        if param_path == send_path(idx, "on"@) {
            let on = flag_of(value);
            &&& new_state.states() == old_state.states().insert(channel_index, (Some(on), old_state.entry_of(channel_index).1))
            &&& res matches SendsModeInputUpdateOutcome::Applied { changed } && if !mapping.contains_key(idx) {
                changed@.len() == 0 && new_track == old_track
            } else {
                let c = mapping[idx] as int;
                let on_changes: Seq<(Seq<char>, JsonValue)> = if old_track.send_on@[c] != on {
                    seq![(send_key(c, false), JsonValue::Bool(on))]
                } else {
                    Seq::empty()
                };
                let mute_changes: Seq<(Seq<char>, JsonValue)> = if old_track.mute != !on {
                    seq![("mute"@, JsonValue::Bool(!on))]
                } else {
                    Seq::empty()
                };
                &&& new_track == (TrackInfo { send_on: new_track.send_on, mute: !on, ..old_track })
                &&& new_track.send_on@ == old_track.send_on@.update(c, on)
                &&& pairs_view(changed@) == on_changes + mute_changes
            }
        } else if param_path == send_path(idx, "pan"@) {
            let pan = match value.spec_as_f64_bits() {
                Some(b) => b,
                None => F64_HALF_BITS,
            };
            &&& new_state.states() == old_state.states().insert(channel_index, (old_state.entry_of(channel_index).0, Some(pan)))
            &&& res matches SendsModeInputUpdateOutcome::Applied { changed } && if (slot.pan_locked && slot.ms_channels@.len() == 2)
                || f64_eq(old_track.pan_bits, pan) {
                changed@.len() == 0 && new_track == old_track
            } else {
                new_track == (TrackInfo { pan_bits: pan, ..old_track }) && pairs_view(changed@) == seq![("pan"@, pan_json(pan))]
            }
        } else {
            res is NotHandled && new_track == old_track && new_state == old_state
        }
    }
}

/// Routes an input-track Mixing Station update while sends mode may be active (see
/// [`sends_mode_input_applied`]).
pub fn handle_sends_mode_input_update(
    slot: &LayoutSlot,
    channel_index: usize,
    param_path: &str,
    value: &JsonValue,
    sends_mode_ms_send_index: Option<usize>,
    mapping: &SendMapping,
    track: &mut TrackInfo,
    input_send_state: &mut InputSendState,
) -> (res: SendsModeInputUpdateOutcome)
    requires
        old(track).wf(),
        forall|k: usize| #[trigger] mapping.ms_send_index_to_c1_slot@.contains_key(k)
            ==> mapping.ms_send_index_to_c1_slot@[k] < 6,
    ensures
        final(track).wf(),
        sends_mode_input_applied(*slot, channel_index, param_path@, *value, sends_mode_ms_send_index,
            mapping.ms_send_index_to_c1_slot@, *old(track), *final(track), *old(input_send_state),
            *final(input_send_state), res),
{
    if slot.kind != LayoutSlotKind::Input {
        return SendsModeInputUpdateOutcome::NotHandled;
    }
    let idx = match sends_mode_ms_send_index {
        Some(i) => i,
        None => return SendsModeInputUpdateOutcome::NotHandled,
    };
    if str_eq(param_path, "mix.on") || str_eq(param_path, "mix.pan") {
        return SendsModeInputUpdateOutcome::Suppressed;
    }
    let path = chars_of(param_path);
    let on_path = send_path_exec(idx, "on");
    let pan_path = send_path_exec(idx, "pan");
    if chars_eq(path.as_slice(), on_path.as_slice()) {
        let on = flag_value(value);
        input_send_state.record(channel_index, Some(on), None);
        let mut changed: Vec<(String, JsonValue)> = Vec::new();
        let c = match mapping.ms_send_index_to_c1_slot.get(&idx) {
            Some(c) => *c,
            None => return SendsModeInputUpdateOutcome::Applied { changed },
        };
        if track.send_on[c] != on {
            track.send_on.set(c, on);
            changed.push((send_key_exec(c, false), JsonValue::Bool(on)));
        }
        let next_muted = !on;
        if track.mute != next_muted {
            track.mute = next_muted;
            changed.push((owned("mute"), JsonValue::Bool(next_muted)));
        }
        proof {
            assert(track.send_on@ =~= old(track).send_on@.update(c as int, on));
            let on_changes: Seq<(Seq<char>, JsonValue)> = if old(track).send_on@[c as int] != on {
                seq![(send_key(c as int, false), JsonValue::Bool(on))]
            } else {
                Seq::empty()
            };
            let mute_changes: Seq<(Seq<char>, JsonValue)> = if old(track).mute != !on {
                seq![("mute"@, JsonValue::Bool(!on))]
            } else {
                Seq::empty()
            };
            assert(pairs_view(changed@) =~= on_changes + mute_changes);
        }
        return SendsModeInputUpdateOutcome::Applied { changed };
    }
    if chars_eq(path.as_slice(), pan_path.as_slice()) {
        let pan = match value.as_f64_bits() {
            Some(b) => b,
            None => F64_HALF_BITS,
        };
        input_send_state.record(channel_index, None, Some(pan));
        let mut changed: Vec<(String, JsonValue)> = Vec::new();
        if slot.pan_locked && slot.ms_channels.len() == 2 {
            return SendsModeInputUpdateOutcome::Applied { changed };
        }
        if !f64_equal(track.pan_bits, pan) {
            track.pan_bits = pan;
            let finite = (pan % 0x8000_0000_0000_0000) / 0x10_0000_0000_0000 != 2047;
            assert(((pan as int / crate::json::two_pow_52() as int) % 2048 != 2047) == finite);
            let v = if finite {
                JsonValue::Number(crate::json::JsonNumber { kind: crate::json::NumberKind::Float, f64_bits: pan })
            } else {
                JsonValue::Null
            };
            changed.push((owned("pan"), v));
            assert(pairs_view(changed@) =~= seq![("pan"@, crate::ms_param_apply::pan_json(pan))]);
        }
        return SendsModeInputUpdateOutcome::Applied { changed };
    }
    SendsModeInputUpdateOutcome::NotHandled
}

/// The changes of mirroring `volume` into the first `n` send slots: per slot, its switch
/// turned on and its level set to `volume`, each listed only where it differs.
pub open spec fn mirror_changes(on: Seq<bool>, levels: Seq<JsonValue>, volume: JsonValue, n: int) -> Seq<(Seq<char>, JsonValue)>
    decreases n,
{
    if n <= 0 {
        Seq::empty()
    } else {
        let i = n - 1;
        mirror_changes(on, levels, volume, i)
            + (if !on[i] { seq![(send_key(i, false), JsonValue::Bool(true))] } else { Seq::empty() })
            + (if !json_eq(levels[i], volume) { seq![(send_key(i, true), volume)] } else { Seq::empty() })
    }
}

/// Mirrors `volume` into all 6 Console 1 send slots, switching each on: the Bus/Main fader
/// display while sends mode is active. Returns the fields that changed.
pub fn mirror_console1_send_slots_from_volume(track: &mut TrackInfo, volume: &JsonValue) -> (res: Vec<(String, JsonValue)>)
    requires
        old(track).wf(),
    ensures
        final(track).wf(),
        *final(track) == (TrackInfo { send_on: final(track).send_on, send_levels: final(track).send_levels, ..*old(track) }),
        final(track).send_on@ == seq![true, true, true, true, true, true],
        forall|i: int| 0 <= i < 6 ==> if json_eq(old(track).send_levels@[i], *volume) {
            #[trigger] final(track).send_levels@[i] == old(track).send_levels@[i]
        } else {
            json_eq(final(track).send_levels@[i], *volume)
        },
        pairs_like(pairs_view(res@), mirror_changes(old(track).send_on@, old(track).send_levels@, *volume, 6)),
{
    let ghost old_on = track.send_on@;
    let ghost old_levels = track.send_levels@;
    let mut changed: Vec<(String, JsonValue)> = Vec::new();
    let mut i: usize = 0;
    while i < 6
        invariant
            i <= 6,
            track.wf(),
            *track == (TrackInfo { send_on: track.send_on, send_levels: track.send_levels, ..*old(track) }),
            old_on == old(track).send_on@,
            old_levels == old(track).send_levels@,
            forall|j: int| 0 <= j < i ==> #[trigger] track.send_on@[j],
            forall|j: int| i <= j < 6 ==> #[trigger] track.send_on@[j] == old_on[j],
            forall|j: int| i <= j < 6 ==> #[trigger] track.send_levels@[j] == old_levels[j],
            forall|j: int| 0 <= j < i ==> if json_eq(old_levels[j], *volume) {
                #[trigger] track.send_levels@[j] == old_levels[j]
            } else {
                json_eq(track.send_levels@[j], *volume)
            },
            pairs_like(pairs_view(changed@), mirror_changes(old_on, old_levels, *volume, i as int)),
        decreases 6 - i,
    {
        let ghost before = changed@;
        if !track.send_on[i] {
            track.send_on.set(i, true);
            changed.push((send_key_exec(i, false), JsonValue::Bool(true)));
        }
        let ghost mid = changed@;
        if !json_equal(&track.send_levels[i], volume) {
            let stored = copy_json(volume);
            track.send_levels.set(i, stored);
            let reported = copy_json(volume);
            changed.push((send_key_exec(i, true), reported));
        }
        proof {
            let e = mirror_changes(old_on, old_levels, *volume, i + 1);
            let p = pairs_view(changed@);
            assert forall|k: int| 0 <= k < p.len() implies (#[trigger] p[k]).0 == e[k].0 && json_eq(p[k].1, e[k].1) by {
                if k < pairs_view(before).len() {
                    assert(p[k] == pairs_view(before)[k]);
                } else {
                    lemma_json_eq_refl(p[k].1);
                }
            }
        }
        i = i + 1;
    }
    proof {
        assert(track.send_on@ =~= seq![true, true, true, true, true, true]);
    }
    changed
}

/// The changes of clearing the first `n` send slots: per slot, its switch turned off and
/// its level set to 0, each listed only where it differs.
pub open spec fn clear_changes(on: Seq<bool>, levels: Seq<JsonValue>, n: int) -> Seq<(Seq<char>, JsonValue)>
    decreases n,
{
    if n <= 0 {
        Seq::empty()
    } else {
        let i = n - 1;
        clear_changes(on, levels, i)
            + (if on[i] { seq![(send_key(i, false), JsonValue::Bool(false))] } else { Seq::empty() })
            + (if !json_eq(levels[i], json_zero()) { seq![(send_key(i, true), json_zero())] } else { Seq::empty() })
    }
}

/// Clears all 6 Console 1 send slots (switch off, level 0), as when Bus/Main leave sends
/// mode. Returns the fields that changed.
pub fn clear_console1_send_slots(track: &mut TrackInfo) -> (res: Vec<(String, JsonValue)>)
    requires
        old(track).wf(),
    ensures
        final(track).wf(),
        *final(track) == (TrackInfo { send_on: final(track).send_on, send_levels: final(track).send_levels, ..*old(track) }),
        final(track).send_on@ == seq![false, false, false, false, false, false],
        forall|i: int| 0 <= i < 6 ==> if json_eq(old(track).send_levels@[i], json_zero()) {
            #[trigger] final(track).send_levels@[i] == old(track).send_levels@[i]
        } else {
            final(track).send_levels@[i] == json_zero()
        },
        pairs_view(res@) == clear_changes(old(track).send_on@, old(track).send_levels@, 6),
{
    let ghost old_on = track.send_on@;
    let ghost old_levels = track.send_levels@;
    let mut changed: Vec<(String, JsonValue)> = Vec::new();
    let mut i: usize = 0;
    while i < 6
        invariant
            i <= 6,
            track.wf(),
            *track == (TrackInfo { send_on: track.send_on, send_levels: track.send_levels, ..*old(track) }),
            old_on == old(track).send_on@,
            old_levels == old(track).send_levels@,
            forall|j: int| 0 <= j < i ==> !#[trigger] track.send_on@[j],
            forall|j: int| i <= j < 6 ==> #[trigger] track.send_on@[j] == old_on[j],
            forall|j: int| i <= j < 6 ==> #[trigger] track.send_levels@[j] == old_levels[j],
            forall|j: int| 0 <= j < i ==> if json_eq(old_levels[j], json_zero()) {
                #[trigger] track.send_levels@[j] == old_levels[j]
            } else {
                track.send_levels@[j] == json_zero()
            },
            pairs_view(changed@) == clear_changes(old_on, old_levels, i as int),
        decreases 6 - i,
    {
        if track.send_on[i] {
            track.send_on.set(i, false);
            changed.push((send_key_exec(i, false), JsonValue::Bool(false)));
        }
        let zero = crate::track_cache::zero_value();
        if !json_equal(&track.send_levels[i], &zero) {
            track.send_levels.set(i, crate::track_cache::zero_value());
            changed.push((send_key_exec(i, true), zero));
        }
        proof {
            assert(pairs_view(changed@) =~= clear_changes(old_on, old_levels, i + 1));
        }
        i = i + 1;
    }
    proof {
        assert(track.send_on@ =~= seq![false, false, false, false, false, false]);
    }
    changed
}

} // verus!
