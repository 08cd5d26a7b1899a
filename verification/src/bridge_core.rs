//! The bridge's decision state and the transitions that move it: per-slot track state,
//! sends mode, and the routing of Mixing Station and Console 1 updates onto tracks. Each
//! transition returns what has to go out (track updates for Console 1, console-data
//! requests for Mixing Station); sending it is the event loop's work.

use crate::channel_data_message::MsFormat;
use crate::config::RuntimeConfig;
use crate::json::{JsonNumber, JsonValue, NumberKind, copy_json, json_eq};
use crate::dsp_field_metadata::F64_HALF_BITS;
use crate::ms_param_apply::{MsParamApplyResult, MsValueFormat, apply_ms_param_to_track_with_send_mapping, ms_param_applied, route_of};
use crate::runtime_rules::{SlotOverride, apply_slot_overrides, slot_override};
use crate::text::{chars_of, occurs_at, occurs_at_exec, str_eq};
use crate::keyed::pairs_view;
use crate::midi_mixer_dispatch::is_bus_or_main;
use crate::ms_param_apply::pairs_like;
use crate::ms_requests::{MsRequest, requests_view, sends_mode_change, sends_mode_requests};
use crate::runtime_rules::{config_colors, default_colors};
use crate::send_mapping::SendMapping;
use crate::sends_mode::{
    InputSendState, SendsModeInputUpdateOutcome, handle_sends_mode_input_update, latched_sends_mode,
    maybe_latch_sends_mode_from_selection, sends_mode_input_applied, clear_changes, clear_console1_send_slots, mirror_changes, mirror_console1_send_slots_from_volume,
};
use crate::track_cache::{TrackCache, TrackInfo, is_default_track, json_zero, nameable_slot};
use crate::track_layout::{LayoutSlot, LayoutSlotKind};
use crate::lifecycle::Lifecycle;
use rand::rngs::StdRng;
use vstd::prelude::*;
use std::collections::HashMap;

verus! {

broadcast use vstd::std_specs::hash::group_hash_axioms;

/// Fields of one Console 1 track to send, by trackId.
#[derive(Debug)]
pub struct TrackUpdate {
    pub track_id: String,
    pub fields: Vec<(String, JsonValue)>,
}


/// The decision state of a running bridge.
pub struct BridgeCore {
    /// The Console 1 layout; slot `i` has object ID `i`.
    pub layout: Vec<LayoutSlot>,
    pub track_cache: TrackCache,
    pub lifecycle: Lifecycle,
    pub config: RuntimeConfig,
    /// MS channel index where bus 1 starts.
    pub bus_channel_start: usize,
    /// How many input channels the console has.
    pub input_channel_count: usize,
    /// The active sends-mode MS send index, if sends mode is on.
    pub sends_mode_ms_send_index: Option<usize>,
    /// The send index whose switch and pan subscriptions are open.
    pub sends_mode_subscribed_ms_send_index: Option<usize>,
    pub input_send_state: InputSendState,
    pub input_std_state: InputStdState,
    pub send_mapping: SendMapping,
}

/// Every slot of `layout` carries its own index as object ID and can be named.
pub open spec fn layout_ok(layout: Seq<LayoutSlot>, bus_channel_start: usize) -> bool {
    &&& layout.len() < i64::MAX
    &&& forall|i: int| 0 <= i < layout.len() ==> (#[trigger] layout[i]).object_id == i
        && nameable_slot(layout[i], bus_channel_start)
}

/// `t` is the track slot `o` starts with: its default track under the slot's trackId.
pub open spec fn starts_as(core: BridgeCore, o: int, t: TrackInfo) -> bool {
    &&& core.track_cache.registry().track_id_of(o as usize) is Some
    &&& is_default_track(t, core.layout@[o], core.track_cache.registry().track_id_of(o as usize).unwrap(),
        config_colors(core.config), core.bus_channel_start)
}

/// The same state but for the track cache, the sends-mode fields and the input send
/// state.
pub open spec fn same_settings(a: BridgeCore, b: BridgeCore) -> bool {
    &&& a.layout@ == b.layout@
    &&& a.lifecycle == b.lifecycle
    &&& a.config == b.config
    &&& a.bus_channel_start == b.bus_channel_start
    &&& a.input_channel_count == b.input_channel_count
    &&& a.send_mapping == b.send_mapping
}

/// The track of slot `o` before a transition that reads it: the cached one, or the slot's
/// default track when there is none yet.
pub open spec fn track_before(old_core: BridgeCore, new_core: BridgeCore, o: int, t: TrackInfo) -> bool {
    if old_core.track_cache.tracks().contains_key(o as usize) {
        t == old_core.track_cache.tracks()[o as usize]
    } else {
        starts_as(new_core, o, t)
    }
}

/// Making sure slot `o` has a track: `ok` when `o` has a slot and already has a track or
/// a trackId can still be registered; then the slot has a track, a new one being its
/// default track ([`starts_as`]); otherwise nothing changes. Only the track cache changes,
/// and registered trackIds stay.
pub open spec fn track_ensured(old: BridgeCore, new: BridgeCore, o: usize, ok: bool) -> bool {
    &&& same_settings(old, new)
    &&& new.sends_mode_ms_send_index == old.sends_mode_ms_send_index
    &&& new.sends_mode_subscribed_ms_send_index == old.sends_mode_subscribed_ms_send_index
    &&& new.input_send_state == old.input_send_state
    &&& new.input_std_state == old.input_std_state
    &&& ok == (o < old.layout@.len() && (old.track_cache.tracks().contains_key(o)
        || old.track_cache.registry().entries().len() < 0xffff_ffff))
    &&& !ok ==> new.track_cache == old.track_cache
    &&& ok && old.track_cache.tracks().contains_key(o) ==> new.track_cache.tracks() == old.track_cache.tracks()
    &&& ok && !old.track_cache.tracks().contains_key(o) ==> {
        &&& new.track_cache.tracks() == old.track_cache.tracks().insert(o, new.track_cache.tracks()[o])
        &&& starts_as(new, o as int, new.track_cache.tracks()[o])
    }
    &&& ok ==> new.track_cache.tracks().contains_key(o)
    &&& new.track_cache.registry().entries().len() <= old.track_cache.registry().entries().len() + 1
    &&& forall|x: usize| #[trigger] old.track_cache.registry().track_id_of(x) is Some
        ==> new.track_cache.registry().track_id_of(x) == old.track_cache.registry().track_id_of(x)
}

impl BridgeCore {
    /// The state is consistent: the caches are well formed, the layout is
    /// [`layout_ok`], and every mapped send lands on one of the six Console 1 slots.
    pub open spec fn wf(&self) -> bool {
        &&& self.track_cache.wf()
        &&& layout_ok(self.layout@, self.bus_channel_start)
        &&& forall|k: usize| #[trigger] self.send_mapping.ms_send_index_to_c1_slot@.contains_key(k)
            ==> self.send_mapping.ms_send_index_to_c1_slot@[k] < 6
    }

    /// Makes sure slot `o` has a cached track, creating its default track on first use.
    /// `false` (and nothing changed) when `o` has no slot, or when no trackId can be
    /// registered any more (2^32 - 1 object IDs already have one).
    pub fn ensure_track(&mut self, o: usize, rng: &mut StdRng) -> (res: bool)
        requires
            old(self).wf(),
        ensures
            final(self).wf(),
            track_ensured(*old(self), *final(self), o, res),
    {
        if o >= self.layout.len() {
            return false;
        }
        if self.track_cache.get(o).is_none() && self.track_cache.registered_count() >= 0xffff_ffff {
            return false;
        }
        let colors = default_colors(&self.config);
        let lifecycle = self.lifecycle;
        let bcs = self.bus_channel_start;
        assert(self.layout@[o as int].object_id == o);
        self.track_cache.get_or_create(o, &self.layout[o], lifecycle, &colors, bcs, rng);
        true
    }
}

/// `t` is `pre` with its send slots re-pointed for sends mode `next`: mirroring the volume
/// (every switch on) while sends mode is on, cleared (switches off, levels 0) otherwise.
pub open spec fn refreshed(pre: TrackInfo, t: TrackInfo, next: Option<usize>) -> bool {
    &&& t == (TrackInfo { send_on: t.send_on, send_levels: t.send_levels, ..pre })
    &&& t.wf()
    &&& match next {
        Some(_) => {
            &&& t.send_on@ == seq![true, true, true, true, true, true]
            &&& forall|i: int| 0 <= i < 6 ==> if json_eq(pre.send_levels@[i], pre.volume) {
                #[trigger] t.send_levels@[i] == pre.send_levels@[i]
            } else {
                json_eq(t.send_levels@[i], pre.volume)
            }
        },
        None => {
            &&& t.send_on@ == seq![false, false, false, false, false, false]
            &&& forall|i: int| 0 <= i < 6 ==> if json_eq(pre.send_levels@[i], json_zero()) {
                #[trigger] t.send_levels@[i] == pre.send_levels@[i]
            } else {
                t.send_levels@[i] == json_zero()
            }
        },
    }
}

/// The fields a send-slot re-pointing changes (see [`refreshed`]).
pub open spec fn refresh_changes(pre: TrackInfo, next: Option<usize>) -> Seq<(Seq<char>, JsonValue)> {
    match next {
        Some(_) => mirror_changes(pre.send_on@, pre.send_levels@, pre.volume, 6),
        None => clear_changes(pre.send_on@, pre.send_levels@, 6),
    }
}

/// The track updates of re-pointing the Bus/Main slots among the first `n` whose track
/// before is given in `pres`: one per slot with changes, in slot order.
pub open spec fn refresh_updates(pres: Seq<Option<TrackInfo>>, next: Option<usize>, n: int) -> Seq<(Seq<char>, Seq<(Seq<char>, JsonValue)>)>
    decreases n,
{
    if n <= 0 {
        Seq::empty()
    } else {
        refresh_updates(pres, next, n - 1) + match pres[n - 1] {
            Some(p) => if refresh_changes(p, next).len() > 0 {
                seq![(p.track_id@, refresh_changes(p, next))]
            } else {
                Seq::empty()
            },
            None => Seq::empty(),
        }
    }
}

/// `us` lists the updates of `spec`, in order, with structurally equal values.
pub open spec fn updates_like(us: Seq<TrackUpdate>, spec: Seq<(Seq<char>, Seq<(Seq<char>, JsonValue)>)>) -> bool {
    &&& us.len() == spec.len()
    &&& forall|k: int| 0 <= k < us.len() ==> (#[trigger] us[k]).track_id@ == spec[k].0
        && pairs_like(pairs_view(us[k].fields@), spec[k].1)
}

/// Slot `x` of `layout` is a Bus or Main slot.
pub open spec fn bus_or_main_slot(layout: Seq<LayoutSlot>, x: int) -> bool {
    0 <= x < layout.len() && is_bus_or_main(layout[x].kind)
}

/// [`refresh_updates`] of the first `n` slots depends only on their tracks.
proof fn lemma_refresh_updates_prefix(p1: Seq<Option<TrackInfo>>, p2: Seq<Option<TrackInfo>>, next: Option<usize>, n: int)
    requires
        0 <= n <= p1.len(),
        n <= p2.len(),
        forall|k: int| 0 <= k < n ==> p1[k] == p2[k],
    ensures
        refresh_updates(p1, next, n) == refresh_updates(p2, next, n),
    decreases n,
{
    if n > 0 {
        lemma_refresh_updates_prefix(p1, p2, next, n - 1);
    }
}

/// Re-pointing the send slots for sends mode `next` (a change of mode): the mode and the
/// subscribed send become `next`; the input send state is dropped; `requests` close the
/// previously subscribed send and open and re-read the new one ([`sends_mode_change`]);
/// every Bus/Main slot gets a track (unless trackIds ran out) whose send slots are
/// [`refreshed`] from its track before, reported as [`refresh_updates`]; other tracks are
/// untouched.
pub open spec fn send_slots_repointed(
    old: BridgeCore,
    new: BridgeCore,
    next: Option<usize>,
    updates: Seq<TrackUpdate>,
    requests: Seq<MsRequest>,
) -> bool {
    &&& same_settings(old, new)
    &&& new.input_std_state == old.input_std_state
    &&& new.sends_mode_ms_send_index == next
    &&& new.sends_mode_subscribed_ms_send_index == next
    &&& new.input_send_state.states().is_empty()
    &&& requests_view(requests) == sends_mode_change(old.sends_mode_subscribed_ms_send_index, next, old.input_channel_count)
    &&& forall|x: usize| !bus_or_main_slot(old.layout@, x as int) ==> (#[trigger] new.track_cache.tracks().contains_key(x)
        == old.track_cache.tracks().contains_key(x)) && (old.track_cache.tracks().contains_key(x)
        ==> new.track_cache.tracks()[x] == old.track_cache.tracks()[x])
    &&& old.track_cache.registry().entries().len() + old.layout@.len() < 0xffff_ffff ==>
        forall|x: usize| bus_or_main_slot(old.layout@, x as int) ==> #[trigger] new.track_cache.tracks().contains_key(x)
    &&& exists|pres: Seq<Option<TrackInfo>>| {
        &&& pres.len() == old.layout@.len()
        &&& forall|o: int| 0 <= o < pres.len() ==> match #[trigger] pres[o] {
            Some(p) => bus_or_main_slot(old.layout@, o) && new.track_cache.tracks().contains_key(o as usize)
                && track_before(old, new, o, p)
                && refreshed(p, new.track_cache.tracks()[o as usize], next),
            None => !(bus_or_main_slot(old.layout@, o) && new.track_cache.tracks().contains_key(o as usize)),
        }
        &&& updates_like(updates, refresh_updates(pres, next, pres.len() as int))
    }
}

impl BridgeCore {
    /// Re-points the send slots for a change to sends mode `next` (see
    /// [`send_slots_repointed`]).
    fn repoint_send_slots(&mut self, next: Option<usize>, rng: &mut StdRng) -> (res: (Vec<TrackUpdate>, Vec<MsRequest>))
        requires
            old(self).wf(),
            2 * old(self).input_channel_count <= usize::MAX,
            next != old(self).sends_mode_ms_send_index,
        ensures
            final(self).wf(),
            send_slots_repointed(*old(self), *final(self), next, res.0@, res.1@),
    {
        self.sends_mode_ms_send_index = next;
        self.input_send_state.clear();
        let ghost start = *self;
        let mut updates: Vec<TrackUpdate> = Vec::new();
        let ghost mut pres: Seq<Option<TrackInfo>> = Seq::empty();
        let n = self.layout.len();
        let mut o: usize = 0;
        while o < n
            invariant
                self.wf(),
                o <= n,
                n == self.layout@.len(),
                same_settings(start, *self),
                self.sends_mode_ms_send_index == next,
                self.sends_mode_subscribed_ms_send_index == start.sends_mode_subscribed_ms_send_index,
                self.input_send_state.states().is_empty(),
                self.input_std_state == start.input_std_state,
                pres.len() == o,
                self.track_cache.registry().entries().len() <= start.track_cache.registry().entries().len() + o,
                forall|x: usize| !(bus_or_main_slot(start.layout@, x as int) && x < o) ==> (#[trigger] self.track_cache.tracks().contains_key(x)
                    == start.track_cache.tracks().contains_key(x)) && (start.track_cache.tracks().contains_key(x)
                    ==> self.track_cache.tracks()[x] == start.track_cache.tracks()[x]),
                start.track_cache.registry().entries().len() + n < 0xffff_ffff ==>
                    forall|x: usize| bus_or_main_slot(start.layout@, x as int) && x < o ==> #[trigger] self.track_cache.tracks().contains_key(x),
                forall|x: usize| #[trigger] start.track_cache.registry().track_id_of(x) is Some
                    ==> self.track_cache.registry().track_id_of(x) == start.track_cache.registry().track_id_of(x),
                forall|k: int| 0 <= k < o ==> match #[trigger] pres[k] {
                    Some(p) => bus_or_main_slot(start.layout@, k) && self.track_cache.tracks().contains_key(k as usize)
                        && track_before(start, *self, k, p)
                        && refreshed(p, self.track_cache.tracks()[k as usize], next),
                    None => !(bus_or_main_slot(start.layout@, k) && self.track_cache.tracks().contains_key(k as usize)),
                },
                updates_like(updates@, refresh_updates(pres, next, o as int)),
            decreases n - o,
        {
            let kind = self.layout[o].kind;
            let ghost before = *self;
            let ghost pres_before = pres;
            if kind == LayoutSlotKind::Bus || kind == LayoutSlotKind::Main {
                if self.ensure_track(o, rng) {
                    let ghost ensured = *self;
                    let mut track = match self.track_cache.take(o) {
                        Some(t) => t,
                        None => { assert(false); return (updates, Vec::new()); },
                    };
                    let ghost pre = track;
                    let mut volume = JsonValue::Null;
                    std::mem::swap(&mut volume, &mut track.volume);
                    let changed = match next {
                        Some(_) => mirror_console1_send_slots_from_volume(&mut track, &volume),
                        None => clear_console1_send_slots(&mut track),
                    };
                    track.volume = volume;
                    let track_id = track.track_id.clone();
                    let ghost post = track;
                    self.track_cache.put(o, track);
                    let ghost ch = pairs_view(changed@);
                    proof {
                        if next is None {
                            assert forall|i: int| 0 <= i < ch.len() implies (#[trigger] ch[i]).0 == refresh_changes(pre, next)[i].0
                                && json_eq(ch[i].1, refresh_changes(pre, next)[i].1) by {
                                crate::json::lemma_json_eq_refl(ch[i].1);
                            }
                        }
                        assert(pairs_like(ch, refresh_changes(pre, next)));
                    }
                    let ghost updates_before = updates@;
                    if changed.len() > 0 {
                        updates.push(TrackUpdate { track_id, fields: changed });
                        proof {
                            let spec = refresh_updates(pres_before, next, o as int);
                            assert forall|k: int| 0 <= k < updates@.len() implies (#[trigger] updates@[k]).track_id@
                                == (spec + seq![(pre.track_id@, refresh_changes(pre, next))])[k].0
                                && pairs_like(pairs_view(updates@[k].fields@), (spec + seq![(pre.track_id@, refresh_changes(pre, next))])[k].1) by {
                                if k < updates_before.len() {
                                    assert(updates@[k] == updates_before[k]);
                                }
                            }
                        }
                    }
                    proof {
                        pres = pres.push(Some(pre));
                        assert(refreshed(pre, post, next));
                        assert(track_before(start, *self, o as int, pre)) by {
                            if !start.track_cache.tracks().contains_key(o) {
                                assert(!before.track_cache.tracks().contains_key(o));
                                assert(starts_as(ensured, o as int, pre));
                            }
                        }
                        lemma_refresh_updates_prefix(pres_before, pres, next, o as int);
                    }
                } else {
                    proof {
                        pres = pres.push(None);
                        lemma_refresh_updates_prefix(pres_before, pres, next, o as int);
                    }
                }
            } else {
                proof {
                    pres = pres.push(None);
                    lemma_refresh_updates_prefix(pres_before, pres, next, o as int);
                }
            }
            proof {
                assert forall|k: int| 0 <= k < o implies match #[trigger] pres[k] {
                    Some(p) => bus_or_main_slot(start.layout@, k) && self.track_cache.tracks().contains_key(k as usize)
                        && track_before(start, *self, k, p)
                        && refreshed(p, self.track_cache.tracks()[k as usize], next),
                    None => !(bus_or_main_slot(start.layout@, k) && self.track_cache.tracks().contains_key(k as usize)),
                } by {
                    assert(pres[k] == pres_before[k]);
                    assert(k as usize != o);
                    if let Some(p) = pres[k] {
                        if !start.track_cache.tracks().contains_key(k as usize) {
                            assert(starts_as(before, k, p));
                        }
                    }
                }
            }
            o = o + 1;
        }
        let previous = self.sends_mode_subscribed_ms_send_index;
        self.sends_mode_subscribed_ms_send_index = next;
        let requests = sends_mode_requests(previous, next, self.input_channel_count);
        (updates, requests)
    }
}

/// Per MS input channel, the standard `mix.on` and `mix.pan` values Mixing Station last
/// reported, whatever mode is active (sends mode shows send-derived values instead).
#[derive(Debug)]
pub struct InputStdState {
    entries: HashMap<usize, (Option<JsonValue>, Option<JsonValue>)>,
}

/// Remembering an update: an Input slot with a primary channel records a `mix.on` or
/// `mix.pan` value (a structurally equal copy) for that channel; nothing else changes.
pub open spec fn remembered(
    old: Map<usize, (Option<JsonValue>, Option<JsonValue>)>,
    new: Map<usize, (Option<JsonValue>, Option<JsonValue>)>,
    slot: LayoutSlot,
    param_path: Seq<char>,
    value: JsonValue,
) -> bool {
    if slot.kind == LayoutSlotKind::Input && slot.ms_primary is Some && (param_path == "mix.on"@ || param_path == "mix.pan"@) {
        let p = slot.ms_primary.unwrap();
        let e = if old.contains_key(p) { old[p] } else { (None, None) };
        &&& new.dom() == old.dom().insert(p)
        &&& forall|x: usize| x != p && #[trigger] old.contains_key(x) ==> new[x] == old[x]
        &&& if param_path == "mix.on"@ {
            new[p].1 == e.1 && (new[p].0 matches Some(v) && json_eq(v, value))
        } else {
            new[p].0 == e.0 && (new[p].1 matches Some(v) && json_eq(v, value))
        }
    } else {
        new == old
    }
}

impl InputStdState {
    /// The recorded values, by MS channel.
    pub closed spec fn view_map(&self) -> Map<usize, (Option<JsonValue>, Option<JsonValue>)> {
        self.entries@
    }

    pub fn new() -> (res: Self)
        ensures
            res.view_map() == Map::<usize, (Option<JsonValue>, Option<JsonValue>)>::empty(),
    {
        InputStdState { entries: HashMap::new() }
    }

    /// Records an update's standard value (see [`remembered`]).
    pub fn remember(&mut self, slot: &LayoutSlot, param_path: &str, value: &JsonValue)
        ensures
            remembered(old(self).view_map(), final(self).view_map(), *slot, param_path@, *value),
    {
        if slot.kind != LayoutSlotKind::Input {
            return;
        }
        let p = match slot.ms_primary {
            Some(p) => p,
            None => return,
        };
        let is_on = str_eq(param_path, "mix.on");
        let is_pan = str_eq(param_path, "mix.pan");
        if !is_on && !is_pan {
            return;
        }
        let ghost before = self.entries@;
        let (on, pan) = match self.entries.remove(&p) {
            Some(e) => e,
            None => (None, None),
        };
        let entry = if is_on { (Some(copy_json(value)), pan) } else { (on, Some(copy_json(value))) };
        self.entries.insert(p, entry);
        proof {
            assert(self.entries@ == before.insert(p, entry));
            assert(self.entries@.dom() =~= before.dom().insert(p));
        }
    }

    /// The recorded values of a channel, if any.
    pub fn get(&self, channel: usize) -> (res: Option<&(Option<JsonValue>, Option<JsonValue>)>)
        ensures
            match res {
                Some(e) => self.view_map().contains_key(channel) && *e == self.view_map()[channel],
                None => !self.view_map().contains_key(channel),
            },
    {
        self.entries.get(&channel)
    }
}

/// `v` is the value a slot override `o` leaves to apply for `value`.
pub open spec fn overrides_to(o: SlotOverride, value: JsonValue, v: JsonValue) -> bool {
    match o {
        SlotOverride::Keep => json_eq(v, value),
        SlotOverride::Text(t) => v is Str && v.spec_as_str() == Some(t),
        SlotOverride::Number(n) => v == JsonValue::Number(n),
        SlotOverride::Drop => false,
    }
}

/// Applying a Mixing Station value to a track after the per-slot overrides: nothing when
/// the override drops it; otherwise the overridden value is applied as
/// [`ms_param_applied`] says.
#[verifier::opaque]
pub open spec fn override_applied(
    config: RuntimeConfig,
    slot: LayoutSlot,
    bus_channel_start: usize,
    mapping: Map<usize, usize>,
    old_t: TrackInfo,
    new_t: TrackInfo,
    param_path: Seq<char>,
    value: JsonValue,
    format: Option<MsValueFormat>,
    gain_norm_bits: u64,
    res: Option<MsParamApplyResult>,
) -> bool {
    match slot_override(slot, param_path, value, config.console1_main_color, config.console1_bus_color) {
        SlotOverride::Drop => res is None && new_t == old_t,
        o => res matches Some(r) && exists|v: JsonValue| #[trigger] overrides_to(o, value, v) && ms_param_applied(old_t, new_t, r,
            route_of(param_path), slot, bus_channel_start, v, format, Some(mapping), gain_norm_bits),
    }
}

/// Applies a Mixing Station value to a track after the per-slot overrides (see
/// [`override_applied`]).
pub fn apply_ms_param_with_overrides(
    track: &mut TrackInfo,
    slot: &LayoutSlot,
    config: &RuntimeConfig,
    bus_channel_start: usize,
    mapping: &SendMapping,
    param_path: &str,
    format: Option<MsValueFormat>,
    value: &JsonValue,
    gain_norm_bits: u64,
) -> (res: Option<MsParamApplyResult>)
    requires
        old(track).wf(),
        nameable_slot(*slot, bus_channel_start),
        forall|k: usize| #[trigger] mapping.ms_send_index_to_c1_slot@.contains_key(k)
            ==> mapping.ms_send_index_to_c1_slot@[k] < 6,
    ensures
        final(track).wf(),
        final(track).track_id == old(track).track_id,
        override_applied(*config, *slot, bus_channel_start, mapping.ms_send_index_to_c1_slot@, *old(track), *final(track),
            param_path@, *value, format, gain_norm_bits, res),
{
    let copy = copy_json(value);
    proof {
        reveal(override_applied);
        crate::json::lemma_json_eq_sym(copy, *value);
        lemma_override_same_for_like(*slot, param_path@, copy, *value, config.console1_main_color, config.console1_bus_color);
    }
    let v = match apply_slot_overrides(slot, param_path, copy, config) {
        Some(v) => v,
        None => return None,
    };
    let ghost gv = v;
    proof {
        reveal(override_applied);
    }
    let r = apply_ms_param_to_track_with_send_mapping(track, slot, bus_channel_start, param_path, &v, format, mapping, gain_norm_bits);
    assert(ms_param_applied(*old(track), *track, r, route_of(param_path@), *slot, bus_channel_start, gv, format,
        Some(mapping.ms_send_index_to_c1_slot@), gain_norm_bits));
    proof {
        let o = slot_override(*slot, param_path@, *value, config.console1_main_color, config.console1_bus_color);
        crate::json::lemma_json_eq_sym(copy, *value);
        assert(slot_override(*slot, param_path@, copy, config.console1_main_color, config.console1_bus_color) == o) by {
            lemma_override_same_for_like(*slot, param_path@, copy, *value, config.console1_main_color, config.console1_bus_color);
        }
        assert(overrides_to(o, *value, gv)) by {
            if o is Keep {
                crate::json::lemma_json_eq_refl(copy);
            }
        }
    }
    Some(r)
}

/// The overrides of structurally equal values agree, but for the kept value itself.
proof fn lemma_override_same_for_like(slot: LayoutSlot, path: Seq<char>, a: JsonValue, b: JsonValue, main: u32, bus: u32)
    requires
        json_eq(a, b),
    ensures
        slot_override(slot, path, a, main, bus) == slot_override(slot, path, b, main, bus),
{
    match (a, b) {
        (JsonValue::Str(x), JsonValue::Str(y)) => {
            assert(x@ == y@);
        },
        _ => {},
    }
}

/// The pan restored on an input slot leaving sends mode: none for a stereo-linked pair,
/// centre for another pan-locked slot, else the last standard pan reported.
pub open spec fn pan_restore_value(slot: LayoutSlot, cached_pan: Option<JsonValue>) -> Option<JsonValue> {
    if slot.pan_locked && slot.ms_channels@.len() == 2 {
        None
    } else if slot.pan_locked {
        Some(JsonValue::Number(JsonNumber { kind: NumberKind::Float, f64_bits: F64_HALF_BITS }))
    } else {
        cached_pan
    }
}

/// One input slot's restore: its track before, after `mix.on`, after the pan, and the two
/// application results.
pub type RestoreStep = (TrackInfo, TrackInfo, TrackInfo, Option<MsParamApplyResult>, Option<MsParamApplyResult>);

/// Slot `o` is restored leaving sends mode: an Input slot with a primary channel and a
/// cached track.
pub open spec fn restore_target(core: BridgeCore, o: int) -> bool {
    &&& 0 <= o < core.layout@.len()
    &&& core.layout@[o].kind == LayoutSlotKind::Input
    &&& core.layout@[o].ms_primary is Some
    &&& core.track_cache.tracks().contains_key(o as usize)
}

/// The standard values recorded for slot `o`'s primary channel.
pub open spec fn std_entry(core: BridgeCore, o: int) -> (Option<JsonValue>, Option<JsonValue>) {
    let p = core.layout@[o].ms_primary.unwrap();
    let m = core.input_std_state.view_map();
    if m.contains_key(p) { m[p] } else { (None, None) }
}

/// `s` restores slot `o` of `core`: the recorded `mix.on` (if any), then the restored pan
/// ([`pan_restore_value`], if any), each applied after the per-slot overrides.
pub open spec fn restore_step_ok(core: BridgeCore, o: int, s: RestoreStep) -> bool {
    let slot = core.layout@[o];
    let e = std_entry(core, o);
    let mapping = core.send_mapping.ms_send_index_to_c1_slot@;
    &&& s.0 == core.track_cache.tracks()[o as usize]
    &&& match e.0 {
        Some(v) => override_applied(core.config, slot, core.bus_channel_start, mapping, s.0, s.1, "mix.on"@, v, None, 0, s.3),
        None => s.1 == s.0 && s.3 is None,
    }
    &&& match pan_restore_value(slot, e.1) {
        Some(v) => override_applied(core.config, slot, core.bus_channel_start, mapping, s.1, s.2, "mix.pan"@, v, None, 0, s.4),
        None => s.2 == s.1 && s.4 is None,
    }
}

/// The reported changes of an application result.
pub open spec fn result_changes(r: Option<MsParamApplyResult>) -> Seq<(Seq<char>, JsonValue)> {
    match r {
        Some(r) => pairs_view(r.changed@),
        None => Seq::empty(),
    }
}

/// The track updates of the restore steps among the first `n`: one per restored slot with
/// changes, in slot order.
pub open spec fn restore_updates(steps: Seq<Option<RestoreStep>>, n: int) -> Seq<(Seq<char>, Seq<(Seq<char>, JsonValue)>)>
    decreases n,
{
    if n <= 0 {
        Seq::empty()
    } else {
        restore_updates(steps, n - 1) + match steps[n - 1] {
            Some(s) => if result_changes(s.3).len() + result_changes(s.4).len() > 0 {
                seq![(s.2.track_id@, result_changes(s.3) + result_changes(s.4))]
            } else {
                Seq::empty()
            },
            None => Seq::empty(),
        }
    }
}

proof fn lemma_restore_updates_prefix(a: Seq<Option<RestoreStep>>, b: Seq<Option<RestoreStep>>, n: int)
    requires
        0 <= n <= a.len(),
        n <= b.len(),
        forall|k: int| 0 <= k < n ==> a[k] == b[k],
    ensures
        restore_updates(a, n) == restore_updates(b, n),
    decreases n,
{
    if n > 0 {
        lemma_restore_updates_prefix(a, b, n - 1);
    }
}

/// Restoring the standard mute and pan of every input slot from the recorded standard
/// values: each [`restore_target`] slot's track goes through its [`restore_step_ok`] step,
/// reported as [`restore_updates`]; nothing else changes.
pub open spec fn standard_restored(old: BridgeCore, new: BridgeCore, updates: Seq<TrackUpdate>) -> bool {
    &&& same_settings(old, new)
    &&& new.input_std_state == old.input_std_state
    &&& new.input_send_state == old.input_send_state
    &&& new.sends_mode_ms_send_index == old.sends_mode_ms_send_index
    &&& new.sends_mode_subscribed_ms_send_index == old.sends_mode_subscribed_ms_send_index
    &&& new.track_cache.registry() == old.track_cache.registry()
    &&& new.track_cache.tracks().dom() == old.track_cache.tracks().dom()
    &&& exists|steps: Seq<Option<RestoreStep>>| {
        &&& steps.len() == old.layout@.len()
        &&& forall|o: int| 0 <= o < steps.len() ==> match #[trigger] steps[o] {
            Some(s) => restore_target(old, o) && restore_step_ok(old, o, s) && new.track_cache.tracks()[o as usize] == s.2,
            None => !restore_target(old, o),
        }
        &&& forall|x: usize| !restore_target(old, x as int) && #[trigger] old.track_cache.tracks().contains_key(x)
            ==> new.track_cache.tracks()[x] == old.track_cache.tracks()[x]
        &&& updates_like(updates, restore_updates(steps, steps.len() as int))
    }
}

/// Setting sends mode `next`: nothing when that is the current mode; otherwise the send
/// slots are re-pointed ([`send_slots_repointed`]) and, when leaving sends mode, the input
/// slots' standard mute and pan are restored ([`standard_restored`]); the re-pointing
/// updates come first.
pub open spec fn sends_mode_set(old: BridgeCore, new: BridgeCore, next: Option<usize>, updates: Seq<TrackUpdate>, requests: Seq<MsRequest>) -> bool {
    if next == old.sends_mode_ms_send_index {
        new == old && updates.len() == 0 && requests.len() == 0
    } else {
        exists|mid: BridgeCore, u1: Seq<TrackUpdate>| {
            &&& #[trigger] send_slots_repointed(old, mid, next, u1, requests)
            &&& match next {
                Some(_) => new == mid && updates == u1,
                None => exists|u2: Seq<TrackUpdate>| #[trigger] standard_restored(mid, new, u2) && updates == u1 + u2,
            }
        }
    }
}

impl BridgeCore {
    /// Restores one [`restore_target`] slot, returning its trackId and reported changes.
    fn restore_one(&mut self, o: usize) -> (res: (String, Vec<(String, JsonValue)>))
        requires
            old(self).wf(),
            restore_target(*old(self), o as int),
        ensures
            final(self).wf(),
            same_settings(*old(self), *final(self)),
            final(self).input_std_state == old(self).input_std_state,
            final(self).input_send_state == old(self).input_send_state,
            final(self).sends_mode_ms_send_index == old(self).sends_mode_ms_send_index,
            final(self).sends_mode_subscribed_ms_send_index == old(self).sends_mode_subscribed_ms_send_index,
            final(self).track_cache.registry() == old(self).track_cache.registry(),
            exists|s: RestoreStep| restore_step_ok(*old(self), o as int, s)
                && final(self).track_cache.tracks() == old(self).track_cache.tracks().insert(o, s.2)
                && s.2.track_id@ == res.0@
                && pairs_view(res.1@) == result_changes(s.3) + result_changes(s.4),
    {
        let p = self.layout[o].ms_primary.unwrap();
        let mut track = match self.track_cache.take(o) {
            Some(t) => t,
            None => { assert(false); return (String::new(), Vec::new()); },
        };
        let ghost pre = track;
        let slot = &self.layout[o];
        let entry = self.input_std_state.get(p);
        let r_on = match entry {
            Some(e) => match &e.0 {
                Some(v) => apply_ms_param_with_overrides(&mut track, slot, &self.config, self.bus_channel_start,
                    &self.send_mapping, "mix.on", None, v, 0),
                None => None,
            },
            None => None,
        };
        let ghost mid = track;
        let centre = JsonValue::Number(JsonNumber { kind: NumberKind::Float, f64_bits: F64_HALF_BITS });
        let cached_pan: Option<&JsonValue> = match entry {
            Some(e) => match &e.1 {
                Some(v) => Some(v),
                None => None,
            },
            None => None,
        };
        let pan_value: Option<&JsonValue> = if slot.pan_locked && slot.ms_channels.len() == 2 {
            None
        } else if slot.pan_locked {
            Some(&centre)
        } else {
            cached_pan
        };
        let r_pan = match pan_value {
            Some(v) => apply_ms_param_with_overrides(&mut track, slot, &self.config, self.bus_channel_start,
                &self.send_mapping, "mix.pan", None, v, 0),
            None => None,
        };
        let ghost post = track;
        let ghost step: RestoreStep = (pre, mid, post, r_on, r_pan);
        let mut changed: Vec<(String, JsonValue)> = Vec::new();
        if let Some(mut r) = r_on {
            changed.append(&mut r.changed);
        }
        if let Some(mut r) = r_pan {
            changed.append(&mut r.changed);
        }
        let track_id = track.track_id.clone();
        self.track_cache.put(o, track);
        proof {
            reveal_strlit("mix.on");
            reveal_strlit("mix.pan");
            assert(pairs_view(changed@) =~= result_changes(step.3) + result_changes(step.4));
            assert(restore_step_ok(*old(self), o as int, step));
        }
        (track_id, changed)
    }

    /// Restores the standard mute and pan of the input slots from the recorded standard
    /// values, as when leaving sends mode (see [`standard_restored`]).
    pub fn restore_standard_mute_pan(&mut self) -> (res: Vec<TrackUpdate>)
        requires
            old(self).wf(),
        ensures
            final(self).wf(),
            standard_restored(*old(self), *final(self), res@),
    {
        let ghost start = *self;
        let mut updates: Vec<TrackUpdate> = Vec::new();
        let ghost mut steps: Seq<Option<RestoreStep>> = Seq::empty();
        let n = self.layout.len();
        let mut o: usize = 0;
        while o < n
            invariant
                self.wf(),
                o <= n,
                n == self.layout@.len(),
                same_settings(start, *self),
                self.input_std_state == start.input_std_state,
                self.input_send_state == start.input_send_state,
                self.sends_mode_ms_send_index == start.sends_mode_ms_send_index,
                self.sends_mode_subscribed_ms_send_index == start.sends_mode_subscribed_ms_send_index,
                self.track_cache.registry() == start.track_cache.registry(),
                self.track_cache.tracks().dom() == start.track_cache.tracks().dom(),
                steps.len() == o,
                forall|k: int| 0 <= k < o ==> match #[trigger] steps[k] {
                    Some(s) => restore_target(start, k) && restore_step_ok(start, k, s) && self.track_cache.tracks()[k as usize] == s.2,
                    None => !restore_target(start, k),
                },
                forall|x: usize| !(restore_target(start, x as int) && x < o) && #[trigger] start.track_cache.tracks().contains_key(x)
                    ==> self.track_cache.tracks()[x] == start.track_cache.tracks()[x],
                updates_like(updates@, restore_updates(steps, o as int)),
            decreases n - o,
        {
            let ghost steps_before = steps;
            let ghost updates_before = updates@;
            let ghost before = *self;
            let target = {
                let slot = &self.layout[o];
                slot.kind == LayoutSlotKind::Input && slot.ms_primary.is_some() && self.track_cache.get(o).is_some()
            };
            if target {
                assert(restore_target(before, o as int));
                let (track_id, changed) = self.restore_one(o);
                let ghost step = choose|s: RestoreStep| restore_step_ok(before, o as int, s)
                    && self.track_cache.tracks() == before.track_cache.tracks().insert(o, s.2)
                    && s.2.track_id@ == track_id@
                    && pairs_view(changed@) == result_changes(s.3) + result_changes(s.4);
                proof {
                    assert(restore_step_ok(start, o as int, step)) by {
                        assert(before.track_cache.tracks()[o] == start.track_cache.tracks()[o]);
                        assert(std_entry(before, o as int) == std_entry(start, o as int));
                    }
                    steps = steps.push(Some(step));
                    lemma_restore_updates_prefix(steps_before, steps, o as int);
                    assert(steps[o as int] == Some(step));
                    assert(pairs_view(changed@).len() == changed@.len());
                    let extra = (step.2.track_id@, result_changes(step.3) + result_changes(step.4));
                    if changed@.len() > 0 {
                        assert(restore_updates(steps, o + 1) == restore_updates(steps_before, o as int) + seq![extra]);
                    } else {
                        assert(restore_updates(steps, o + 1) == restore_updates(steps_before, o as int));
                    }
                }
                if changed.len() > 0 {
                    updates.push(TrackUpdate { track_id, fields: changed });
                    proof {
                        let spec = restore_updates(steps_before, o as int);
                        let extra = (step.2.track_id@, result_changes(step.3) + result_changes(step.4));
                        assert forall|k: int| 0 <= k < updates@.len() implies (#[trigger] updates@[k]).track_id@
                            == (spec + seq![extra])[k].0 && pairs_like(pairs_view(updates@[k].fields@), (spec + seq![extra])[k].1) by {
                            if k < updates_before.len() {
                                assert(updates@[k] == updates_before[k]);
                            } else {
                                let f = pairs_view(updates@[k].fields@);
                                assert forall|i: int| 0 <= i < f.len() implies (#[trigger] f[i]).0 == extra.1[i].0
                                    && json_eq(f[i].1, extra.1[i].1) by {
                                    crate::json::lemma_json_eq_refl(f[i].1);
                                }
                            }
                        }
                    }
                }
            } else {
                proof {
                    assert(!restore_target(start, o as int));
                    steps = steps.push(None);
                    lemma_restore_updates_prefix(steps_before, steps, o as int);
                }
            }
            proof {
                assert forall|k: int| 0 <= k < o implies match #[trigger] steps[k] {
                    Some(s) => restore_target(start, k) && restore_step_ok(start, k, s) && self.track_cache.tracks()[k as usize] == s.2,
                    None => !restore_target(start, k),
                } by {
                    assert(steps[k] == steps_before[k]);
                    assert(k as usize != o);
                }
            }
            o = o + 1;
        }
        updates
    }

    /// Enters sends mode on send `next`, or leaves it for `None`: nothing when that is the
    /// current mode; otherwise the send slots are re-pointed ([`send_slots_repointed`])
    /// and, when leaving, the input slots' standard mute and pan are restored
    /// ([`standard_restored`]). Returns the track updates (re-pointing first) and the
    /// console-data requests.
    pub fn set_sends_mode(&mut self, next: Option<usize>, rng: &mut StdRng) -> (res: (Vec<TrackUpdate>, Vec<MsRequest>))
        requires
            old(self).wf(),
            2 * old(self).input_channel_count <= usize::MAX,
        ensures
            final(self).wf(),
            same_settings(*old(self), *final(self)),
            sends_mode_set(*old(self), *final(self), next, res.0@, res.1@),
    {
        if next == self.sends_mode_ms_send_index {
            return (Vec::new(), Vec::new());
        }
        let (mut updates, requests) = self.repoint_send_slots(next, rng);
        let ghost mid = *self;
        let ghost u1 = updates@;
        assert(send_slots_repointed(*old(self), mid, next, u1, requests@));
        if next.is_none() {
            let mut restored = self.restore_standard_mute_pan();
            let ghost u2 = restored@;
            updates.append(&mut restored);
            assert(standard_restored(mid, *self, u2) && updates@ == u1 + u2);
            assert(exists|u: Seq<TrackUpdate>| #[trigger] standard_restored(mid, *self, u) && updates@ == u1 + u);
        } else {
            assert(*self == mid && updates@ == u1);
        }
        let res = (updates, requests);
        assert(send_slots_repointed(*old(self), mid, next, u1, res.1@));
        assert(next is None ==> exists|u2: Seq<TrackUpdate>| #[trigger] standard_restored(mid, *self, u2) && res.0@ == u1 + u2);
        assert(next is Some ==> *self == mid && res.0@ == u1);
        assert(exists|m: BridgeCore, u: Seq<TrackUpdate>| {
            &&& #[trigger] send_slots_repointed(*old(self), m, next, u, res.1@)
            &&& match next {
                Some(_) => *self == m && res.0@ == u,
                None => exists|u2: Seq<TrackUpdate>| #[trigger] standard_restored(m, *self, u2) && res.0@ == u + u2,
            }
        });
        res
    }
}

/// `pairs_like` is reflexive.
pub(crate) proof fn lemma_pairs_like_refl(a: Seq<(Seq<char>, JsonValue)>)
    ensures
        pairs_like(a, a),
{
    assert forall|i: int| 0 <= i < a.len() implies (#[trigger] a[i]).0 == a[i].0 && json_eq(a[i].1, a[i].1) by {
        crate::json::lemma_json_eq_refl(a[i].1);
    }
}

/// Appending lists that are alike to the same list keeps them alike.
proof fn lemma_pairs_like_append(a: Seq<(Seq<char>, JsonValue)>, b: Seq<(Seq<char>, JsonValue)>, c: Seq<(Seq<char>, JsonValue)>)
    requires
        pairs_like(b, c),
    ensures
        pairs_like(a + b, a + c),
{
    assert forall|i: int| 0 <= i < (a + b).len() implies (#[trigger] (a + b)[i]).0 == (a + c)[i].0
        && json_eq((a + b)[i].1, (a + c)[i].1) by {
        if i < a.len() {
            crate::json::lemma_json_eq_refl(a[i].1);
        } else {
            assert(b[i - a.len()].0 == c[i - a.len()].0);
        }
    }
}

/// A bare DSP field update for Console 1, by trackId.
#[derive(Debug)]
pub struct BareUpdate {
    pub track_id: String,
    pub field: String,
    pub value: JsonValue,
}

pub open spec fn bares_view(b: Seq<BareUpdate>) -> Seq<(Seq<char>, Seq<char>, JsonValue)> {
    b.map_values(|x: BareUpdate| (x.track_id@, x.field@, x.value))
}

/// The bare updates of a track's reported DSP fields, under its trackId.
pub open spec fn bares_of(track_id: Seq<char>, fields: Seq<(String, JsonValue)>) -> Seq<(Seq<char>, Seq<char>, JsonValue)> {
    fields.map_values(|f: (String, JsonValue)| (track_id, f.0@, f.1))
}

/// The value format of a channel-data format.
pub open spec fn value_format(f: MsFormat) -> MsValueFormat {
    match f {
        MsFormat::Val => MsValueFormat::Val,
        MsFormat::Norm => MsValueFormat::Norm,
    }
}

/// The single track update of `changes` under `track_id`, unless suppressed or empty.
pub open spec fn single_update(track_id: Seq<char>, changes: Seq<(Seq<char>, JsonValue)>, suppress: bool) -> Seq<(Seq<char>, Seq<(Seq<char>, JsonValue)>)> {
    if !suppress && changes.len() > 0 { seq![(track_id, changes)] } else { Seq::empty() }
}

/// Applying a Mixing Station update to slot `o`'s cached track in `old`: routed through
/// the sends-mode input handling first ([`sends_mode_input_applied`]); when that does not
/// handle it, applied after the per-slot overrides ([`override_applied`]), and a Bus/Main
/// level change in sends mode is mirrored into the send slots. The changes are reported
/// as one update and the DSP fields as bare updates, both dropped when `suppress`; only
/// the slot's track and the input send state change.
pub open spec fn track_update_applied(
    old: BridgeCore,
    new: BridgeCore,
    o: usize,
    channel: usize,
    param_path: Seq<char>,
    format: MsFormat,
    value: JsonValue,
    suppress: bool,
    gain_norm_bits: u64,
    updates: Seq<TrackUpdate>,
    bares: Seq<BareUpdate>,
) -> bool {
    let slot = old.layout@[o as int];
    let t0 = old.track_cache.tracks()[o];
    let tid = t0.track_id@;
    let mapping = old.send_mapping.ms_send_index_to_c1_slot@;
    let t = new.track_cache.tracks()[o];
    &&& same_settings(old, new)
    &&& new.input_std_state == old.input_std_state
    &&& new.sends_mode_ms_send_index == old.sends_mode_ms_send_index
    &&& new.sends_mode_subscribed_ms_send_index == old.sends_mode_subscribed_ms_send_index
    &&& new.track_cache.registry() == old.track_cache.registry()
    &&& new.track_cache.tracks() == old.track_cache.tracks().insert(o, t)
    &&& exists|sres: SendsModeInputUpdateOutcome, t1: TrackInfo| {
        &&& #[trigger] sends_mode_input_applied(slot, channel, param_path, value, old.sends_mode_ms_send_index, mapping,
            t0, t1, old.input_send_state, new.input_send_state, sres)
        &&& match sres {
            SendsModeInputUpdateOutcome::Suppressed => t == t1 && updates.len() == 0 && bares.len() == 0,
            SendsModeInputUpdateOutcome::Applied { changed } => t == t1 && bares.len() == 0
                && updates_like(updates, single_update(tid, pairs_view(changed@), suppress)),
            SendsModeInputUpdateOutcome::NotHandled => exists|r: Option<MsParamApplyResult>, t2: TrackInfo| {
                &&& #[trigger] override_applied(old.config, slot, old.bus_channel_start, mapping, t1, t2, param_path, value,
                    Some(value_format(format)), gain_norm_bits, r)
                &&& match r {
                    None => t == t2 && updates.len() == 0 && bares.len() == 0,
                    Some(r) => {
                        let mirror = old.sends_mode_ms_send_index is Some && is_bus_or_main(slot.kind) && param_path == "mix.lvl"@;
                        let changes = pairs_view(r.changed@) + if mirror {
                            mirror_changes(t2.send_on@, t2.send_levels@, t2.volume, 6)
                        } else {
                            Seq::empty()
                        };
                        &&& if mirror { refreshed(t2, t, old.sends_mode_ms_send_index) } else { t == t2 }
                        &&& updates_like(updates, single_update(tid, changes, suppress))
                        &&& bares_view(bares) == if suppress { Seq::empty() } else { bares_of(tid, r.bare_field_updates@) }
                    },
                }
            },
        }
    }
}

impl BridgeCore {
    /// Applies a Mixing Station update to slot `o`'s cached track (see
    /// [`track_update_applied`]).
    fn apply_to_track(
        &mut self,
        o: usize,
        channel: usize,
        param_path: &str,
        format: MsFormat,
        value: &JsonValue,
        suppress: bool,
        gain_norm_bits: u64,
    ) -> (res: (Vec<TrackUpdate>, Vec<BareUpdate>))
        requires
            old(self).wf(),
            o < old(self).layout@.len(),
            old(self).track_cache.tracks().contains_key(o),
        ensures
            final(self).wf(),
            track_update_applied(*old(self), *final(self), o, channel, param_path@, format, *value, suppress,
                gain_norm_bits, res.0@, res.1@),
    {
        let mut track = match self.track_cache.take(o) {
            Some(t) => t,
            None => { assert(false); return (Vec::new(), Vec::new()); },
        };
        let ghost t0 = track;
        let slot = &self.layout[o];
        assert(slot.object_id == o);
        let outcome = handle_sends_mode_input_update(slot, channel, param_path, value, self.sends_mode_ms_send_index,
            &self.send_mapping, &mut track, &mut self.input_send_state);
        let ghost sres = outcome;
        let ghost t1 = track;
        let mut updates: Vec<TrackUpdate> = Vec::new();
        let mut bares: Vec<BareUpdate> = Vec::new();
        match outcome {
            SendsModeInputUpdateOutcome::Suppressed => {
                let ghost put_track = track;
                self.track_cache.put(o, track);
                assert(self.track_cache.tracks() =~= old(self).track_cache.tracks().insert(o, put_track));
                assert(sends_mode_input_applied(*slot, channel, param_path@, *value, old(self).sends_mode_ms_send_index,
                    old(self).send_mapping.ms_send_index_to_c1_slot@, t0, t1, old(self).input_send_state, self.input_send_state, sres));
                return (updates, bares);
            },
            SendsModeInputUpdateOutcome::Applied { changed } => {
                let track_id = track.track_id.clone();
                let ghost put_track = track;
                self.track_cache.put(o, track);
                assert(self.track_cache.tracks() =~= old(self).track_cache.tracks().insert(o, put_track));
                if !suppress && changed.len() > 0 {
                    let ghost cv = pairs_view(changed@);
                    updates.push(TrackUpdate { track_id, fields: changed });
                    proof {
                        lemma_pairs_like_refl(cv);
                    }
                }
                return (updates, bares);
            },
            SendsModeInputUpdateOutcome::NotHandled => {},
        }
        let fmt = match format {
            MsFormat::Val => MsValueFormat::Val,
            MsFormat::Norm => MsValueFormat::Norm,
        };
        let r = apply_ms_param_with_overrides(&mut track, slot, &self.config, self.bus_channel_start, &self.send_mapping,
            param_path, Some(fmt), value, gain_norm_bits);
        let ghost gr = r;
        let ghost t2 = track;
        assert(override_applied(self.config, *slot, self.bus_channel_start, self.send_mapping.ms_send_index_to_c1_slot@,
            t1, t2, param_path@, *value, Some(value_format(format)), gain_norm_bits, gr));
        assert(sends_mode_input_applied(*slot, channel, param_path@, *value, old(self).sends_mode_ms_send_index,
            old(self).send_mapping.ms_send_index_to_c1_slot@, t0, t1, old(self).input_send_state, self.input_send_state, sres));
        let mut result = match r {
            Some(r) => r,
            None => {
                let ghost put_track = track;
                self.track_cache.put(o, track);
                assert(self.track_cache.tracks() =~= old(self).track_cache.tracks().insert(o, put_track));
                return (updates, bares);
            },
        };
        let mirror = self.sends_mode_ms_send_index.is_some() && (slot.kind == LayoutSlotKind::Bus || slot.kind == LayoutSlotKind::Main)
            && str_eq(param_path, "mix.lvl");
        let ghost reported = pairs_view(result.changed@);
        let ghost mc = mirror_changes(t2.send_on@, t2.send_levels@, t2.volume, 6);
        let mut changed: Vec<(String, JsonValue)> = Vec::new();
        changed.append(&mut result.changed);
        proof {
            lemma_pairs_like_refl(reported);
            assert(pairs_view(changed@) =~= reported);
        }
        if mirror {
            let mut volume = JsonValue::Null;
            std::mem::swap(&mut volume, &mut track.volume);
            let mut mirrored = mirror_console1_send_slots_from_volume(&mut track, &volume);
            track.volume = volume;
            let ghost mv = pairs_view(mirrored@);
            changed.append(&mut mirrored);
            proof {
                assert(pairs_view(changed@) =~= reported + mv);
                lemma_pairs_like_append(reported, mv, mc);
            }
        }
        assert(pairs_like(pairs_view(changed@), reported + if mirror { mc } else { Seq::<(Seq<char>, JsonValue)>::empty() })) by {
            if !mirror {
                assert(reported + Seq::<(Seq<char>, JsonValue)>::empty() =~= reported);
            }
        }
        let track_id = track.track_id.clone();
        let ghost put_track = track;
        self.track_cache.put(o, track);
        assert(self.track_cache.tracks() =~= old(self).track_cache.tracks().insert(o, put_track));
        if !suppress {
            let n = result.bare_field_updates.len();
            let mut i: usize = 0;
            let ghost bfu = result.bare_field_updates@;
            while result.bare_field_updates.len() > 0
                invariant
                    bfu.len() == n,
                    i + result.bare_field_updates@.len() == n,
                    result.bare_field_updates@ == bfu.subrange(i as int, n as int),
                    bares_view(bares@) == bares_of(track_id@, bfu.subrange(0, i as int)),
                decreases result.bare_field_updates.len(),
            {
                let (field, value) = result.bare_field_updates.remove(0);
                bares.push(BareUpdate { track_id: track_id.clone(), field, value });
                proof {
                    assert(bares_of(track_id@, bfu.subrange(0, i + 1)) =~= bares_of(track_id@, bfu.subrange(0, i as int))
                        .push((track_id@, bfu[i as int].0@, bfu[i as int].1)));
                    assert(bares_view(bares@) =~= bares_of(track_id@, bfu.subrange(0, i + 1)));
                    assert(result.bare_field_updates@ =~= bfu.subrange(i + 1, n as int));
                }
                i = i + 1;
            }
            assert(bfu.subrange(0, n as int) =~= bfu);
            if changed.len() > 0 {
                let ghost cv = pairs_view(changed@);
                updates.push(TrackUpdate { track_id, fields: changed });
                proof {
                    lemma_pairs_like_refl(cv);
                }
            }
        }
        proof {
            reveal_strlit("mix.lvl");
            let sm = old(self).sends_mode_ms_send_index is Some && is_bus_or_main(slot.kind) && param_path@ == "mix.lvl"@;
            assert(mirror == sm);
            assert(put_track.track_id@ == t0.track_id@);
            assert(if mirror { refreshed(t2, put_track, old(self).sends_mode_ms_send_index) } else { put_track == t2 });
            let changes = reported + if mirror { mc } else { Seq::<(Seq<char>, JsonValue)>::empty() };
            assert(updates_like(updates@, single_update(t0.track_id@, changes, suppress)));
            assert(bares_view(bares@) == if suppress { Seq::empty() } else { bares_of(t0.track_id@, gr.unwrap().bare_field_updates@) });
            let tt = self.track_cache.tracks()[o];
            assert(tt == put_track);
            assert(exists|r: Option<MsParamApplyResult>, t2x: TrackInfo| {
                &&& #[trigger] override_applied(old(self).config, *slot, old(self).bus_channel_start,
                    old(self).send_mapping.ms_send_index_to_c1_slot@, t1, t2x, param_path@, *value,
                    Some(value_format(format)), gain_norm_bits, r)
                &&& match r {
                    None => tt == t2x && updates@.len() == 0 && bares@.len() == 0,
                    Some(r) => {
                        let mirror = old(self).sends_mode_ms_send_index is Some && is_bus_or_main(slot.kind) && param_path@ == "mix.lvl"@;
                        let changes = pairs_view(r.changed@) + if mirror {
                            mirror_changes(t2x.send_on@, t2x.send_levels@, t2x.volume, 6)
                        } else {
                            Seq::empty()
                        };
                        &&& if mirror { refreshed(t2x, tt, old(self).sends_mode_ms_send_index) } else { tt == t2x }
                        &&& updates_like(updates@, single_update(t0.track_id@, changes, suppress))
                        &&& bares_view(bares@) == if suppress { Seq::empty() } else { bares_of(t0.track_id@, r.bare_field_updates@) }
                    },
                }
            });
            assert(sres is NotHandled);
            assert(same_settings(*old(self), *self));
            assert(self.input_std_state == old(self).input_std_state);
            assert(self.track_cache.registry() == old(self).track_cache.registry());
            assert(self.track_cache.tracks() == old(self).track_cache.tracks().insert(o, tt));
            assert(t0 == old(self).track_cache.tracks()[o]);
            assert(*slot == old(self).layout@[o as int]);
            let mapping = old(self).send_mapping.ms_send_index_to_c1_slot@;
            assert(sends_mode_input_applied(*slot, channel, param_path@, *value, old(self).sends_mode_ms_send_index, mapping,
                t0, t1, old(self).input_send_state, self.input_send_state, sres));
            assert(exists|sres2: SendsModeInputUpdateOutcome, t1x: TrackInfo| {
                &&& #[trigger] sends_mode_input_applied(*slot, channel, param_path@, *value, old(self).sends_mode_ms_send_index, mapping,
                    t0, t1x, old(self).input_send_state, self.input_send_state, sres2)
                &&& sres2 is NotHandled
                &&& exists|r: Option<MsParamApplyResult>, t2x: TrackInfo| {
                    &&& #[trigger] override_applied(old(self).config, *slot, old(self).bus_channel_start,
                        mapping, t1x, t2x, param_path@, *value,
                        Some(value_format(format)), gain_norm_bits, r)
                    &&& match r {
                        None => tt == t2x && updates@.len() == 0 && bares@.len() == 0,
                        Some(r) => {
                            let mirror = old(self).sends_mode_ms_send_index is Some && is_bus_or_main(slot.kind) && param_path@ == "mix.lvl"@;
                            let changes = pairs_view(r.changed@) + if mirror {
                                mirror_changes(t2x.send_on@, t2x.send_levels@, t2x.volume, 6)
                            } else {
                                Seq::empty()
                            };
                            &&& if mirror { refreshed(t2x, tt, old(self).sends_mode_ms_send_index) } else { tt == t2x }
                            &&& updates_like(updates@, single_update(t0.track_id@, changes, suppress))
                            &&& bares_view(bares@) == if suppress { Seq::empty() } else { bares_of(t0.track_id@, r.bare_field_updates@) }
                        },
                    }
                }
            });
            assert(track_update_applied(*old(self), *self, o, channel, param_path@, format, *value, suppress,
                gain_norm_bits, updates@, bares@));
        }
        (updates, bares)
    }
}

/// What a transition produces: track updates and bare field updates for Console 1, and
/// console-data requests for Mixing Station.
#[derive(Debug)]
pub struct CoreOutput {
    pub updates: Vec<TrackUpdate>,
    pub bares: Vec<BareUpdate>,
    pub requests: Vec<MsRequest>,
}

/// A Mixing Station update of `param_path` on channel `channel` does not reach slot `o`:
/// no such slot; a slot listening on another primary channel (a stereo pair listens on
/// its first); a send parameter on a Bus/Main slot (those always show standard sends); or
/// solo on a Bus slot (bus masters ignore solo).
pub open spec fn update_skipped(core: BridgeCore, o: usize, channel: usize, param_path: Seq<char>) -> bool {
    ||| o >= core.layout@.len()
    ||| (core.layout@[o as int].ms_primary matches Some(p) && channel != p)
    ||| (is_bus_or_main(core.layout@[o as int].kind) && occurs_at(param_path, "mix.sends."@, 0))
    ||| (core.layout@[o as int].kind == LayoutSlotKind::Bus && param_path == "solo"@)
}

/// The sends-mode step of a channel update: a `selected` update that latches sends mode
/// sets it ([`sends_mode_set`]), turning `old` into `mid` with updates `updates` and
/// requests `requests`; any other update leaves the core as it is.
pub open spec fn latch_applied(
    old: BridgeCore,
    mid: BridgeCore,
    updates: Seq<TrackUpdate>,
    slot: LayoutSlot,
    param_path: Seq<char>,
    value: JsonValue,
    requests: Seq<MsRequest>,
) -> bool {
    match latched_sends_mode(slot, param_path, value, old.bus_channel_start) {
        Some(next) => sends_mode_set(old, mid, next, updates, requests),
        None => mid == old && updates.len() == 0 && requests.len() == 0,
    }
}

/// A Mixing Station update reaching slot `o`: a `selected` update may first change sends
/// mode ([`latched_sends_mode`], [`sends_mode_set`]); the slot's standard value is
/// [`remembered`]; the slot gets a track ([`track_ensured`]); and the update is applied to
/// it ([`track_update_applied`]). The sends-mode updates come first.
pub open spec fn channel_update_applied(
    old: BridgeCore,
    new: BridgeCore,
    o: usize,
    channel: usize,
    param_path: Seq<char>,
    format: MsFormat,
    value: JsonValue,
    suppress: bool,
    gain_norm_bits: u64,
    out: CoreOutput,
) -> bool {
    let slot = old.layout@[o as int];
    exists|m1: BridgeCore, u1: Seq<TrackUpdate>, m2: BridgeCore, m3: BridgeCore, ok: bool|
        #![trigger latch_applied(old, m1, u1, slot, param_path, value, out.requests@), track_ensured(m2, m3, o, ok)]
    {
        &&& latch_applied(old, m1, u1, slot, param_path, value, out.requests@)
        &&& track_ensured(m2, m3, o, ok)
        &&& remembered(m1.input_std_state.view_map(), m2.input_std_state.view_map(), slot, param_path, value)
        &&& m2 == (BridgeCore { input_std_state: m2.input_std_state, ..m1 })
        &&& if ok {
            exists|u2: Seq<TrackUpdate>| #[trigger] track_update_applied(m3, new, o, channel, param_path, format, value, suppress,
                gain_norm_bits, u2, out.bares@) && out.updates@ == u1 + u2
        } else {
            new == m3 && out.updates@ == u1 && out.bares@.len() == 0
        }
    }
}

impl BridgeCore {
    /// Applies one Mixing Station channel update to slot `o`: nothing when it does not
    /// reach the slot ([`update_skipped`]); otherwise as [`channel_update_applied`] says.
    /// `suppress` (the update is the echo of the bridge's own write) keeps the changes
    /// from being reported; `gain_norm_bits` is the normalized input gain of the value,
    /// used for `headamp.gain`.
    pub fn apply_channel_update_to_slot(
        &mut self,
        o: usize,
        channel: usize,
        param_path: &str,
        format: MsFormat,
        value: &JsonValue,
        suppress: bool,
        gain_norm_bits: u64,
        rng: &mut StdRng,
    ) -> (res: CoreOutput)
        requires
            old(self).wf(),
            2 * old(self).input_channel_count <= usize::MAX,
        ensures
            final(self).wf(),
            same_settings(*old(self), *final(self)),
            update_skipped(*old(self), o, channel, param_path@) ==> *final(self) == *old(self)
                && res.updates@.len() == 0 && res.bares@.len() == 0 && res.requests@.len() == 0,
            !update_skipped(*old(self), o, channel, param_path@) ==> channel_update_applied(*old(self), *final(self), o,
                channel, param_path@, format, *value, suppress, gain_norm_bits, res),
    {
        let empty = CoreOutput { updates: Vec::new(), bares: Vec::new(), requests: Vec::new() };
        if o >= self.layout.len() {
            return empty;
        }
        let kind = self.layout[o].kind;
        if let Some(p) = self.layout[o].ms_primary {
            if channel != p {
                return empty;
            }
        }
        let path = chars_of(param_path);
        let prefix = chars_of("mix.sends.");
        let is_send_param = path.len() >= prefix.len() && occurs_at_exec(path.as_slice(), prefix.as_slice(), 0);
        if (kind == LayoutSlotKind::Bus || kind == LayoutSlotKind::Main) && is_send_param {
            proof { reveal_strlit("mix.sends."); }
            return empty;
        }
        if kind == LayoutSlotKind::Bus && str_eq(param_path, "solo") {
            return empty;
        }
        proof {
            reveal_strlit("mix.sends.");
            reveal_strlit("solo");
            assert(!update_skipped(*old(self), o, channel, param_path@));
        }
        let ghost slot = self.layout@[o as int];
        let latch = maybe_latch_sends_mode_from_selection(&self.layout[o], param_path, value, self.bus_channel_start);
        let (mut updates, requests) = match latch {
            Some(next) => self.set_sends_mode(next, rng),
            None => (Vec::new(), Vec::new()),
        };
        let ghost m1 = *self;
        let ghost u1 = updates@;
        let slot_ref = &self.layout[o];
        self.input_std_state.remember(slot_ref, param_path, value);
        let ghost m2 = *self;
        let ok = self.ensure_track(o, rng);
        let ghost m3 = *self;
        if !ok {
            let out = CoreOutput { updates, bares: Vec::new(), requests };
            assert(track_ensured(m2, m3, o, ok));
            assert(latch_applied(*old(self), m1, u1, slot, param_path@, *value, out.requests@));
            return out;
        }
        let (mut more, bares) = self.apply_to_track(o, channel, param_path, format, value, suppress, gain_norm_bits);
        let ghost u2 = more@;
        updates.append(&mut more);
        let out = CoreOutput { updates, bares, requests };
        proof {
            assert(track_ensured(m2, m3, o, ok));
            assert(latch_applied(*old(self), m1, u1, slot, param_path@, *value, out.requests@));
            assert(track_update_applied(m3, *self, o, channel, param_path@, format, *value, suppress, gain_norm_bits, u2, out.bares@));
        }
        out
    }
}

/// Setting the sends mode that was just set changes nothing: no updates, no requests.
pub proof fn lemma_sends_mode_set_twice(
    a: BridgeCore,
    b: BridgeCore,
    c: BridgeCore,
    next: Option<usize>,
    u1: Seq<TrackUpdate>,
    r1: Seq<MsRequest>,
    u2: Seq<TrackUpdate>,
    r2: Seq<MsRequest>,
)
    requires
        sends_mode_set(a, b, next, u1, r1),
        sends_mode_set(b, c, next, u2, r2),
    ensures
        b.sends_mode_ms_send_index == next,
        c == b,
        u2.len() == 0,
        r2.len() == 0,
{
    if next != a.sends_mode_ms_send_index {
        let (mid, w1) = choose|mid: BridgeCore, w1: Seq<TrackUpdate>| {
            &&& #[trigger] send_slots_repointed(a, mid, next, w1, r1)
            &&& match next {
                Some(_) => b == mid && u1 == w1,
                None => exists|w2: Seq<TrackUpdate>| #[trigger] standard_restored(mid, b, w2) && u1 == w1 + w2,
            }
        };
        if next is None {
            let w2 = choose|w2: Seq<TrackUpdate>| #[trigger] standard_restored(mid, b, w2) && u1 == w1 + w2;
            assert(b.sends_mode_ms_send_index == mid.sends_mode_ms_send_index);
        }
    }
}

/// Making sure of a slot's track a second time finds it: nothing changes in the cached
/// tracks.
pub proof fn lemma_track_ensured_twice(a: BridgeCore, b: BridgeCore, c: BridgeCore, o: usize, ok2: bool)
    requires
        track_ensured(a, b, o, true),
        track_ensured(b, c, o, ok2),
    ensures
        ok2,
        c.track_cache.tracks() == b.track_cache.tracks(),
{
}

} // verus!
