//! One Console 1 message for a mixer slot (Input, Bus or Main): the ten handlers run in
//! turn on the slot's track, in Console 1's order: the Bus/Main fader proxy, volume,
//! mute, solo, pan, selection (which may switch sends mode), the send slots, and the
//! Filter, EQ and Compressor sections.

use crate::bridge_core::{BareUpdate, BridgeCore, TrackUpdate, bares_of, bares_view, lemma_pairs_like_refl, sends_mode_set,
    single_update, track_ensured, updates_like};
use crate::json::JsonValue;
use crate::keyed::pairs_view;
use crate::midi_dsp_dispatch::{
    comp_levels_effect, eq_effect, filter_effect, gain_ok, handle_midi_comp_update, handle_midi_eq_update,
    handle_midi_filter_update, has_dsp, level_input, state_of, touch_switch, types_ok,
};
use crate::midi_mixer_dispatch::{
    MsWrite, channel_path, first_send_level, handle_midi_bus_main_sends_mode_fader_proxy, handle_midi_mute_update,
    handle_midi_pan_update, handle_midi_selected_update, handle_midi_send_slots_update, handle_midi_solo_update,
    handle_midi_volume_update, has_send_switch, is_bus_or_main, is_stereo_linked_pair, knob_pan_of, midi_mute_applied,
    midi_pan_applied, midi_solo_applied, midi_volume_applied, proxy_applied, send_slots_applied, switch_json, writes_view,
};
use crate::ms_param_apply::{flag_of, pairs_like, send_key};
use crate::ms_requests::MsRequest;
use crate::channel_data_message::MsFormat;
use crate::sends_mode::latched_sends_mode;
use crate::send_mapping::SendMapping;
use crate::track_cache::TrackInfo;
use crate::track_layout::{LayoutSlot, LayoutSlotKind};
use rand::rngs::StdRng;
use vstd::prelude::*;

verus! {

/// What one mixer-slot message produces: track updates (the handlers' changes and the
/// sends-mode updates, in order), bare field updates, sends-mode console-data requests,
/// and the Mixing Station writes.
#[derive(Debug)]
pub struct MidiTrackOutput {
    pub updates: Vec<TrackUpdate>,
    pub bares: Vec<BareUpdate>,
    pub requests: Vec<MsRequest>,
    pub writes: Vec<MsWrite>,
}

/// The fader proxy stage, as [`handle_midi_bus_main_sends_mode_fader_proxy`] states it.
#[verifier::opaque]
pub open spec fn proxy_stage<L: Fn(&JsonValue) -> (JsonValue, Option<u64>)>(
    level_of: L,
    parsed: JsonValue,
    slot: LayoutSlot,
    smi: Option<usize>,
    t: TrackInfo,
    t2: TrackInfo,
    w: Seq<MsWrite>,
    w2: Seq<MsWrite>,
    c: Seq<(String, JsonValue)>,
) -> bool {
    &&& (smi is None || !is_bus_or_main(slot.kind) ==> t2 == t && w2 == w && c.len() == 0)
    &&& (first_send_level(parsed) is None && !has_send_switch(parsed) ==> t2 == t && w2 == w && c.len() == 0)
    &&& (smi is Some && is_bus_or_main(slot.kind) ==> match first_send_level(parsed) {
        Some(i) => exists|lv: (JsonValue, Option<u64>)|
            #[trigger] level_of.ensures((&parsed.spec_get(send_key(i, true)).unwrap(),), lv)
            && proxy_applied(slot, t, t2, Some(lv), writes_view(w), writes_view(w2), pairs_view(c)),
        None => has_send_switch(parsed) ==> proxy_applied(slot, t, t2, None, writes_view(w), writes_view(w2), pairs_view(c)),
    })
}

/// The volume stage, as [`handle_midi_volume_update`] states it.
#[verifier::opaque]
pub open spec fn volume_stage<L: Fn(&JsonValue) -> (JsonValue, Option<u64>)>(
    level_of: L,
    parsed: JsonValue,
    slot: LayoutSlot,
    smi: Option<usize>,
    t: TrackInfo,
    t2: TrackInfo,
    w: Seq<MsWrite>,
    w2: Seq<MsWrite>,
    c: Seq<(String, JsonValue)>,
) -> bool {
    match parsed.spec_get("volume"@) {
        None => t2 == t && w2 == w && c.len() == 0,
        Some(raw) => exists|lv: (JsonValue, Option<u64>)| #[trigger] level_of.ensures((&raw,), lv)
            && midi_volume_applied(slot, t, t2, smi, lv.0, lv.1, writes_view(w), writes_view(w2), pairs_view(c)),
    }
}

/// The mute stage, as [`handle_midi_mute_update`] states it.
#[verifier::opaque]
pub open spec fn mute_stage(
    parsed: JsonValue,
    slot: LayoutSlot,
    smi: Option<usize>,
    ms_to_c1: Map<usize, usize>,
    t: TrackInfo,
    t2: TrackInfo,
    w: Seq<MsWrite>,
    w2: Seq<MsWrite>,
    c: Seq<(String, JsonValue)>,
) -> bool {
    midi_mute_applied(parsed, slot, t, t2, smi, ms_to_c1, writes_view(w), writes_view(w2), pairs_view(c))
}

/// The solo stage, as [`handle_midi_solo_update`] states it.
#[verifier::opaque]
pub open spec fn solo_stage(
    parsed: JsonValue,
    slot: LayoutSlot,
    t: TrackInfo,
    t2: TrackInfo,
    w: Seq<MsWrite>,
    w2: Seq<MsWrite>,
    c: Seq<(String, JsonValue)>,
) -> bool {
    midi_solo_applied(parsed, slot, t, t2, writes_view(w), writes_view(w2), pairs_view(c))
}

/// The pan stage, as [`handle_midi_pan_update`] states it.
#[verifier::opaque]
pub open spec fn pan_stage<P: Fn(u64) -> (u64, u64)>(
    dual_mono: P,
    parsed: JsonValue,
    slot: LayoutSlot,
    primary: usize,
    smi: Option<usize>,
    t: TrackInfo,
    t2: TrackInfo,
    w: Seq<MsWrite>,
    w2: Seq<MsWrite>,
    c: Seq<(String, JsonValue)>,
) -> bool {
    match parsed.spec_get("pan"@) {
        None => t2 == t && w2 == w && c.len() == 0,
        Some(raw) => exists|lr: (u64, u64)|
            (is_stereo_linked_pair(slot) ==> dual_mono.ensures((knob_pan_of(raw),), lr))
            && #[trigger] midi_pan_applied(slot, primary, smi, knob_pan_of(raw), lr, t, t2, writes_view(w),
                writes_view(w2), pairs_view(c)),
    }
}

/// The selection stage, as [`handle_midi_selected_update`] states it: the write, and the
/// sends-mode decision `latch`.
#[verifier::opaque]
pub open spec fn selected_stage(
    parsed: JsonValue,
    slot: LayoutSlot,
    primary: usize,
    bus_channel_start: usize,
    w: Seq<MsWrite>,
    w2: Seq<MsWrite>,
    latch: Option<Option<usize>>,
) -> bool {
    match parsed.spec_get("selected"@) {
        None => latch is None && w2 == w,
        Some(raw) => {
            &&& writes_view(w2) == writes_view(w).push(
                (channel_path(primary, "selected"@), switch_json(flag_of(raw)), MsFormat::Val))
            &&& latch == if flag_of(raw) {
                latched_sends_mode(slot, "selected"@, JsonValue::Bool(true), bus_channel_start)
            } else {
                None
            }
        },
    }
}

/// The send-slot stage, as [`handle_midi_send_slots_update`] states it.
#[verifier::opaque]
pub open spec fn send_slots_stage<L: Fn(&JsonValue) -> (JsonValue, Option<u64>)>(
    level_of: L,
    parsed: JsonValue,
    slot: LayoutSlot,
    c1_to_ms: Seq<usize>,
    t: TrackInfo,
    t2: TrackInfo,
    w: Seq<MsWrite>,
    w2: Seq<MsWrite>,
    c: Seq<(String, JsonValue)>,
) -> bool {
    exists|levels: Seq<Option<(JsonValue, Option<u64>)>>| {
        &&& levels.len() == 6
        &&& forall|i: int| 0 <= i < 6 ==> match parsed.spec_get(send_key(i, true)) {
            None => #[trigger] levels[i] is None,
            Some(raw) => levels[i] matches Some(lv) && level_of.ensures((&raw,), lv),
        }
        &&& #[trigger] send_slots_applied(parsed, slot, c1_to_ms, levels, t, t2, writes_view(w), writes_view(w2),
            pairs_view(c))
    }
}

/// The Filter stage, as [`handle_midi_filter_update`] states it.
#[verifier::opaque]
pub open spec fn filter_stage<G: Fn(u64) -> u64>(
    gain_db: G,
    parsed: JsonValue,
    slot: LayoutSlot,
    t: TrackInfo,
    t2: TrackInfo,
    w: Seq<MsWrite>,
    w2: Seq<MsWrite>,
    c: Seq<(String, JsonValue)>,
) -> bool {
    &&& (!has_dsp(slot.kind) ==> t2 == t && w2 == w && c.len() == 0)
    &&& (has_dsp(slot.kind) ==> {
        &&& t2 == (TrackInfo { dsp_fields: t2.dsp_fields, ..t })
        &&& exists|r: u64| {
            &&& #[trigger] gain_ok(gain_db, level_input(parsed, "filterPreGain"@), r)
            &&& state_of(t2, c, w2) == filter_effect(state_of(t, Seq::empty(), w), parsed, slot.ms_channels@, r)
        }
    })
}

/// The EQ stage, as [`handle_midi_eq_update`] states it.
#[verifier::opaque]
pub open spec fn eq_stage<T: Fn(u64) -> usize>(
    type_index: T,
    parsed: JsonValue,
    slot: LayoutSlot,
    t: TrackInfo,
    t2: TrackInfo,
    w: Seq<MsWrite>,
    w2: Seq<MsWrite>,
    c: Seq<(String, JsonValue)>,
) -> bool {
    &&& (!has_dsp(slot.kind) ==> t2 == t && w2 == w && c.len() == 0)
    &&& (has_dsp(slot.kind) ==> {
        &&& t2 == (TrackInfo { dsp_fields: t2.dsp_fields, ..t })
        &&& exists|r: Seq<usize>| {
            &&& #[trigger] types_ok(type_index, parsed, r)
            &&& state_of(t2, c, w2) == eq_effect(state_of(t, Seq::empty(), w), parsed, slot.ms_channels@, r, 4)
        }
    })
}

/// The Compressor stage, as [`handle_midi_comp_update`] states it.
#[verifier::opaque]
pub open spec fn comp_stage(
    parsed: JsonValue,
    slot: LayoutSlot,
    t: TrackInfo,
    t2: TrackInfo,
    w: Seq<MsWrite>,
    w2: Seq<MsWrite>,
    c: Seq<(String, JsonValue)>,
) -> bool {
    &&& (!has_dsp(slot.kind) ==> t2 == t && w2 == w && c.len() == 0)
    &&& (has_dsp(slot.kind) ==> {
        &&& t2 == (TrackInfo { dsp_fields: t2.dsp_fields, ..t })
        &&& state_of(t2, c, w2) == comp_levels_effect(
            touch_switch(state_of(t, Seq::empty(), w), parsed, slot.ms_channels@, "compOn"@, "dyn.on"@),
            parsed, slot.ms_channels@, 7)
    })
}

/// The track updates of the first `n` handlers' changes `cs`: one for each handler that
/// changed something, under `track_id`.
pub open spec fn stage_updates(track_id: Seq<char>, cs: Seq<Seq<(String, JsonValue)>>, n: int) -> Seq<(Seq<char>, Seq<(Seq<char>, JsonValue)>)>
    decreases n,
{
    if n <= 0 {
        Seq::empty()
    } else {
        stage_updates(track_id, cs, n - 1) + single_update(track_id, pairs_view(cs[n - 1]), false)
    }
}

/// A message for slot `o` that is not for a mixer slot: no such slot, or a slot that is
/// not an Input, Bus or Main slot with a primary channel.
pub open spec fn midi_track_skipped(core: BridgeCore, o: usize) -> bool {
    ||| o >= core.layout@.len()
    ||| !has_dsp(core.layout@[o as int].kind)
    ||| core.layout@[o as int].ms_primary is None
}

/// `new` is `old` with slot `o`'s cached track set to `t`.
pub open spec fn track_stored(old: BridgeCore, new: BridgeCore, o: usize, t: TrackInfo) -> bool {
    &&& new == (BridgeCore { track_cache: new.track_cache, ..old })
    &&& new.track_cache.tracks() == old.track_cache.tracks().insert(o, t)
    &&& new.track_cache.registry() == old.track_cache.registry()
}

/// One run of the handlers on slot `o` for message `parsed`, with its intermediate
/// states: `m1` after making sure the slot has a track (`ok`); the tracks `ts`, writes
/// `ws` and changes `cs` around each handler; the selection's sends-mode decision
/// `latch`; when it switches sends mode, `m2` (the track stored), `m3` (the mode set,
/// with updates `u`) and `m4` (the track made sure of again, `ok2`).
pub open spec fn midi_run<L, P, G, T>(
    old: BridgeCore,
    new: BridgeCore,
    o: usize,
    parsed: JsonValue,
    level_of: L,
    dual_mono: P,
    gain_db: G,
    type_index: T,
    out: MidiTrackOutput,
    m1: BridgeCore,
    ok: bool,
    ts: Seq<TrackInfo>,
    ws: Seq<Seq<MsWrite>>,
    cs: Seq<Seq<(String, JsonValue)>>,
    latch: Option<Option<usize>>,
    m2: BridgeCore,
    m3: BridgeCore,
    u: Seq<TrackUpdate>,
    m4: BridgeCore,
    ok2: bool,
) -> bool where
    L: Fn(&JsonValue) -> (JsonValue, Option<u64>),
    P: Fn(u64) -> (u64, u64),
    G: Fn(u64) -> u64,
    T: Fn(u64) -> usize,
 {
    let slot = old.layout@[o as int];
    let smi = old.sends_mode_ms_send_index;
    let primary = slot.ms_primary.unwrap();
    &&& track_ensured(old, m1, o, ok)
    &&& !ok ==> new == m1 && out.updates@.len() == 0 && out.bares@.len() == 0 && out.requests@.len() == 0
        && out.writes@.len() == 0
    &&& ok ==> {
        let t0 = m1.track_cache.tracks()[o];
        let id = t0.track_id@;
        let early = stage_updates(id, cs, 5);
        &&& ts.len() == 11 && ws.len() == 11 && cs.len() == 10
        &&& ts[0] == t0 && ws[0] == Seq::<MsWrite>::empty()
        &&& proxy_stage(level_of, parsed, slot, smi, ts[0], ts[1], ws[0], ws[1], cs[0])
        &&& volume_stage(level_of, parsed, slot, smi, ts[1], ts[2], ws[1], ws[2], cs[1])
        &&& mute_stage(parsed, slot, smi, old.send_mapping.ms_send_index_to_c1_slot@, ts[2], ts[3], ws[2], ws[3], cs[2])
        &&& solo_stage(parsed, slot, ts[3], ts[4], ws[3], ws[4], cs[3])
        &&& pan_stage(dual_mono, parsed, slot, primary, smi, ts[4], ts[5], ws[4], ws[5], cs[4])
        &&& selected_stage(parsed, slot, primary, old.bus_channel_start, ws[5], ws[6], latch)
        &&& match latch {
            Some(next) => {
                &&& track_stored(m1, m2, o, ts[5])
                &&& sends_mode_set(m2, m3, next, u, out.requests@)
                &&& track_ensured(m3, m4, o, ok2)
                &&& ok2 ==> ts[6] == m4.track_cache.tracks()[o]
            },
            None => m4 == m1 && ok2 && u.len() == 0 && out.requests@.len() == 0 && ts[6] == ts[5],
        }
        &&& updates_like(out.updates@.take(early.len() as int), early)
        &&& out.updates@.len() >= early.len() + u.len()
        &&& out.updates@.subrange(early.len() as int, (early.len() + u.len()) as int) == u
        &&& !ok2 ==> new == m4 && out.updates@.len() == early.len() + u.len() && out.bares@.len() == 0
            && out.writes@ == ws[6]
        &&& ok2 ==> {
            &&& send_slots_stage(level_of, parsed, slot, old.send_mapping.c1_to_ms_send_index@, ts[6], ts[7], ws[6],
                ws[7], cs[6])
            &&& filter_stage(gain_db, parsed, slot, ts[7], ts[8], ws[7], ws[8], cs[7])
            &&& eq_stage(type_index, parsed, slot, ts[8], ts[9], ws[8], ws[9], cs[8])
            &&& comp_stage(parsed, slot, ts[9], ts[10], ws[9], ws[10], cs[9])
            &&& track_stored(if latch is Some { m4 } else { m1 }, new, o, ts[10])
            &&& updates_like(out.updates@.skip((early.len() + u.len()) as int), single_update(id, pairs_view(cs[6]), false))
            &&& bares_view(out.bares@) == bares_of(id, cs[7] + cs[8] + cs[9])
            &&& out.writes@ == ws[10]
        }
    }
}

/// The handlers were run on slot `o` for message `parsed` ([`midi_run`]).
pub open spec fn midi_track_handled<L, P, G, T>(
    old: BridgeCore,
    new: BridgeCore,
    o: usize,
    parsed: JsonValue,
    level_of: L,
    dual_mono: P,
    gain_db: G,
    type_index: T,
    out: MidiTrackOutput,
) -> bool where
    L: Fn(&JsonValue) -> (JsonValue, Option<u64>),
    P: Fn(u64) -> (u64, u64),
    G: Fn(u64) -> u64,
    T: Fn(u64) -> usize,
 {
    exists|m1: BridgeCore, ok: bool, ts: Seq<TrackInfo>, ws: Seq<Seq<MsWrite>>, cs: Seq<Seq<(String, JsonValue)>>,
        latch: Option<Option<usize>>, m2: BridgeCore, m3: BridgeCore, u: Seq<TrackUpdate>, m4: BridgeCore, ok2: bool|
        #[trigger] midi_run(old, new, o, parsed, level_of, dual_mono, gain_db, type_index, out, m1, ok, ts, ws, cs,
            latch, m2, m3, u, m4, ok2)
}

/// [`stage_updates`] of the first `n` changes depends only on them.
proof fn lemma_stage_updates_prefix(id: Seq<char>, a: Seq<Seq<(String, JsonValue)>>, b: Seq<Seq<(String, JsonValue)>>, n: int)
    requires
        0 <= n <= a.len(),
        n <= b.len(),
        forall|k: int| 0 <= k < n ==> a[k] == b[k],
    ensures
        stage_updates(id, a, n) == stage_updates(id, b, n),
    decreases n,
{
    if n > 0 {
        lemma_stage_updates_prefix(id, a, b, n - 1);
    }
}

/// Updates like `s1` followed by updates like `s2` are like `s1 + s2`.
proof fn lemma_updates_like_append(
    a: Seq<TrackUpdate>,
    b: Seq<TrackUpdate>,
    s1: Seq<(Seq<char>, Seq<(Seq<char>, JsonValue)>)>,
    s2: Seq<(Seq<char>, Seq<(Seq<char>, JsonValue)>)>,
)
    requires
        updates_like(a, s1),
        b.len() >= a.len(),
        b.take(a.len() as int) == a,
        updates_like(b.skip(a.len() as int), s2),
    ensures
        updates_like(b, s1 + s2),
{
    assert forall|k: int| 0 <= k < b.len() implies (#[trigger] b[k]).track_id@ == (s1 + s2)[k].0
        && pairs_like(pairs_view(b[k].fields@), (s1 + s2)[k].1) by {
        if k < a.len() {
            assert(b[k] == b.take(a.len() as int)[k]);
            assert(a[k] == b[k]);
        } else {
            assert(b[k] == b.skip(a.len() as int)[k - a.len()]);
        }
    }
}

/// Appends the bare updates of `fields` under `track_id`.
fn push_bares(bares: &mut Vec<BareUpdate>, track_id: &String, fields: Vec<(String, JsonValue)>)
    ensures
        bares_view(final(bares)@) == bares_view(old(bares)@) + bares_of(track_id@, fields@),
{
    let ghost f0 = fields@;
    let mut fields = fields;
    let mut i: usize = 0;
    let n = fields.len();
    while fields.len() > 0
        invariant
            f0.len() == n,
            i + fields@.len() == n,
            fields@ == f0.subrange(i as int, n as int),
            bares_view(bares@) == bares_view(old(bares)@) + bares_of(track_id@, f0.subrange(0, i as int)),
        decreases fields.len(),
    {
        let (field, value) = fields.remove(0);
        let ghost prev = bares@;
        let id = track_id.clone();
        assert(id@ == track_id@);
        bares.push(BareUpdate { track_id: id, field, value });
        proof {
            assert(bares_view(bares@) =~= bares_view(prev).push((track_id@, f0[i as int].0@, f0[i as int].1)));
            assert(bares_of(track_id@, f0.subrange(0, i + 1)) =~= bares_of(track_id@, f0.subrange(0, i as int))
                .push((track_id@, f0[i as int].0@, f0[i as int].1)));
            assert(bares_view(bares@) =~= bares_view(old(bares)@) + bares_of(track_id@, f0.subrange(0, i + 1)));
            assert(fields@ =~= f0.subrange(i + 1, n as int));
        }
        i = i + 1;
    }
    assert(f0.subrange(0, n as int) =~= f0);
}

/// Appends the update of `changed` under `track_id` when it is not empty.
fn push_changes(updates: &mut Vec<TrackUpdate>, track_id: &String, changed: Vec<(String, JsonValue)>)
    ensures
        final(updates)@.len() >= old(updates)@.len(),
        final(updates)@.take(old(updates)@.len() as int) == old(updates)@,
        updates_like(final(updates)@.skip(old(updates)@.len() as int), single_update(track_id@, pairs_view(changed@), false)),
{
    let ghost c = pairs_view(changed@);
    if changed.len() > 0 {
        updates.push(TrackUpdate { track_id: track_id.clone(), fields: changed });
        proof {
            lemma_pairs_like_refl(c);
            assert(final(updates)@.take(old(updates)@.len() as int) =~= old(updates)@);
            let rest = final(updates)@.skip(old(updates)@.len() as int);
            assert(rest.len() == 1);
            assert(rest[0] == final(updates)@[old(updates)@.len() as int]);
        }
    } else {
        assert(updates@.take(old(updates)@.len() as int) =~= old(updates)@);
        assert(updates@.skip(old(updates)@.len() as int) =~= Seq::<TrackUpdate>::empty());
    }
}

/// [`handle_midi_bus_main_sends_mode_fader_proxy`] as a stage.
fn proxy_step<L: Fn(&JsonValue) -> (JsonValue, Option<u64>)>(parsed: &JsonValue, slot: &LayoutSlot,
    track: &mut TrackInfo, smi: Option<usize>, writes: &mut Vec<MsWrite>, level_of: L) -> (res: Vec<(String, JsonValue)>)
    requires
        old(track).wf(),
        forall|r: &JsonValue| level_of.requires((r,)),
    ensures
        final(track).wf(),
        final(track).track_id == old(track).track_id,
        proxy_stage(level_of, *parsed, *slot, smi, *old(track), *final(track), old(writes)@, final(writes)@, res@),
{
    let c = handle_midi_bus_main_sends_mode_fader_proxy(parsed, slot, track, smi, writes, level_of);
    proof { reveal(proxy_stage); }
    c
}

/// [`handle_midi_volume_update`] as a stage.
fn volume_step<L: Fn(&JsonValue) -> (JsonValue, Option<u64>)>(parsed: &JsonValue, slot: &LayoutSlot,
    track: &mut TrackInfo, smi: Option<usize>, writes: &mut Vec<MsWrite>, level_of: L) -> (res: Vec<(String, JsonValue)>)
    requires
        old(track).wf(),
        forall|r: &JsonValue| level_of.requires((r,)),
    ensures
        final(track).wf(),
        final(track).track_id == old(track).track_id,
        volume_stage(level_of, *parsed, *slot, smi, *old(track), *final(track), old(writes)@, final(writes)@, res@),
{
    let c = handle_midi_volume_update(parsed, slot, track, smi, writes, level_of);
    proof { reveal(volume_stage); }
    c
}

/// [`handle_midi_mute_update`] as a stage.
fn mute_step(parsed: &JsonValue, slot: &LayoutSlot, track: &mut TrackInfo, smi: Option<usize>, mapping: &SendMapping,
    writes: &mut Vec<MsWrite>) -> (res: Vec<(String, JsonValue)>)
    requires
        old(track).wf(),
        forall|k: usize| #[trigger] mapping.ms_send_index_to_c1_slot@.contains_key(k)
            ==> mapping.ms_send_index_to_c1_slot@[k] < 6,
    ensures
        final(track).wf(),
        final(track).track_id == old(track).track_id,
        mute_stage(*parsed, *slot, smi, mapping.ms_send_index_to_c1_slot@, *old(track), *final(track), old(writes)@,
            final(writes)@, res@),
{
    let c = handle_midi_mute_update(parsed, slot, track, smi, mapping, writes);
    proof { reveal(mute_stage); }
    c
}

/// [`handle_midi_solo_update`] as a stage.
fn solo_step(parsed: &JsonValue, slot: &LayoutSlot, track: &mut TrackInfo, writes: &mut Vec<MsWrite>) -> (res: Vec<(String, JsonValue)>)
    requires
        old(track).wf(),
    ensures
        final(track).wf(),
        final(track).track_id == old(track).track_id,
        solo_stage(*parsed, *slot, *old(track), *final(track), old(writes)@, final(writes)@, res@),
{
    let c = handle_midi_solo_update(parsed, slot, track, writes);
    proof { reveal(solo_stage); }
    c
}

/// [`handle_midi_pan_update`] as a stage.
fn pan_step<P: Fn(u64) -> (u64, u64)>(parsed: &JsonValue, slot: &LayoutSlot, track: &mut TrackInfo, primary: usize,
    smi: Option<usize>, writes: &mut Vec<MsWrite>, dual_mono: P) -> (res: Vec<(String, JsonValue)>)
    requires
        old(track).wf(),
        forall|x: u64| dual_mono.requires((x,)),
    ensures
        final(track).wf(),
        final(track).track_id == old(track).track_id,
        pan_stage(dual_mono, *parsed, *slot, primary, smi, *old(track), *final(track), old(writes)@, final(writes)@, res@),
{
    let c = handle_midi_pan_update(parsed, slot, track, primary, smi, writes, dual_mono);
    proof { reveal(pan_stage); }
    c
}

/// [`handle_midi_selected_update`] as a stage.
fn selected_step(parsed: &JsonValue, slot: &LayoutSlot, primary: usize, bus_channel_start: usize,
    writes: &mut Vec<MsWrite>) -> (res: Option<Option<usize>>)
    ensures
        selected_stage(*parsed, *slot, primary, bus_channel_start, old(writes)@, final(writes)@, res),
{
    let l = handle_midi_selected_update(parsed, slot, primary, bus_channel_start, writes);
    proof { reveal(selected_stage); }
    l
}

/// [`handle_midi_send_slots_update`] as a stage.
fn send_slots_step<L: Fn(&JsonValue) -> (JsonValue, Option<u64>)>(parsed: &JsonValue, slot: &LayoutSlot,
    track: &mut TrackInfo, mapping: &SendMapping, writes: &mut Vec<MsWrite>, level_of: L) -> (res: Vec<(String, JsonValue)>)
    requires
        old(track).wf(),
        forall|r: &JsonValue| level_of.requires((r,)),
    ensures
        final(track).wf(),
        final(track).track_id == old(track).track_id,
        send_slots_stage(level_of, *parsed, *slot, mapping.c1_to_ms_send_index@, *old(track), *final(track),
            old(writes)@, final(writes)@, res@),
{
    let c = handle_midi_send_slots_update(parsed, slot, track, mapping, writes, level_of);
    proof { reveal(send_slots_stage); }
    c
}

/// The Filter, EQ and Compressor handlers in turn; their bare changes, in order.
fn dsp_steps<G: Fn(u64) -> u64, T: Fn(u64) -> usize>(parsed: &JsonValue, slot: &LayoutSlot, track: &mut TrackInfo,
    writes: &mut Vec<MsWrite>, gain_db: G, type_index: T) -> (res: (Vec<(String, JsonValue)>, Vec<(String, JsonValue)>,
    Vec<(String, JsonValue)>, Ghost<(TrackInfo, TrackInfo, Seq<MsWrite>, Seq<MsWrite>)>))
    requires
        old(track).wf(),
        forall|x: u64| gain_db.requires((x,)),
        forall|x: u64| type_index.requires((x,)),
    ensures
        final(track).wf(),
        final(track).track_id == old(track).track_id,
        filter_stage(gain_db, *parsed, *slot, *old(track), res.3@.0, old(writes)@, res.3@.2, res.0@),
        eq_stage(type_index, *parsed, *slot, res.3@.0, res.3@.1, res.3@.2, res.3@.3, res.1@),
        comp_stage(*parsed, *slot, res.3@.1, *final(track), res.3@.3, final(writes)@, res.2@),
{
    let c7 = handle_midi_filter_update(parsed, slot, track, writes, gain_db);
    let ghost (t8, w8) = (*track, writes@);
    let c8 = handle_midi_eq_update(parsed, slot, track, writes, type_index);
    let ghost (t9, w9) = (*track, writes@);
    let c9 = handle_midi_comp_update(parsed, slot, track, writes);
    proof {
        reveal(filter_stage);
        reveal(eq_stage);
        reveal(comp_stage);
    }
    (c7, c8, c9, Ghost((t8, t9, w8, w9)))
}

impl BridgeCore {
    /// Runs Console 1 message `parsed` for mixer slot `o` through the ten handlers, in
    /// order, on the slot's track ([`midi_track_handled`]); nothing for a slot that is not
    /// a mixer slot ([`midi_track_skipped`]). A selection that switches sends mode stores
    /// the track first, sets the mode and goes on with the slot's track as the switch left
    /// it. `level_of`, `dual_mono`, `gain_db` and `type_index` are the handlers'
    /// floating-point conversions.
    pub fn handle_midi_track_message<L, P, G, T>(
        &mut self,
        o: usize,
        parsed: &JsonValue,
        rng: &mut StdRng,
        level_of: L,
        dual_mono: P,
        gain_db: G,
        type_index: T,
    ) -> (res: MidiTrackOutput) where
        L: Fn(&JsonValue) -> (JsonValue, Option<u64>) + Copy,
        P: Fn(u64) -> (u64, u64),
        G: Fn(u64) -> u64,
        T: Fn(u64) -> usize,
        requires
            old(self).wf(),
            2 * old(self).input_channel_count <= usize::MAX,
            forall|r: &JsonValue| level_of.requires((r,)),
            forall|x: u64| dual_mono.requires((x,)),
            forall|x: u64| gain_db.requires((x,)),
            forall|x: u64| type_index.requires((x,)),
        ensures
            final(self).wf(),
            midi_track_skipped(*old(self), o) ==> *final(self) == *old(self) && res.updates@.len() == 0
                && res.bares@.len() == 0 && res.requests@.len() == 0 && res.writes@.len() == 0,
            !midi_track_skipped(*old(self), o) ==> midi_track_handled(*old(self), *final(self), o, *parsed, level_of,
                dual_mono, gain_db, type_index, res),
    {
        if o >= self.layout.len() {
            return MidiTrackOutput { updates: Vec::new(), bares: Vec::new(), requests: Vec::new(), writes: Vec::new() };
        }
        let kind = self.layout[o].kind;
        if !(kind == LayoutSlotKind::Input || kind == LayoutSlotKind::Bus || kind == LayoutSlotKind::Main) {
            return MidiTrackOutput { updates: Vec::new(), bares: Vec::new(), requests: Vec::new(), writes: Vec::new() };
        }
        let primary = match self.layout[o].ms_primary {
            Some(p) => p,
            None => {
                return MidiTrackOutput { updates: Vec::new(), bares: Vec::new(), requests: Vec::new(), writes: Vec::new() };
            },
        };
        let ghost slot = self.layout@[o as int];
        let ok = self.ensure_track(o, rng);
        let ghost m1 = *self;
        if !ok {
            let out = MidiTrackOutput { updates: Vec::new(), bares: Vec::new(), requests: Vec::new(), writes: Vec::new() };
            assert(midi_run(*old(self), *self, o, *parsed, level_of, dual_mono, gain_db, type_index, out, m1, ok,
                Seq::empty(), Seq::empty(), Seq::empty(), None, m1, m1, Seq::empty(), m1, true));
            return out;
        }
        let mut track = match self.track_cache.take(o) {
            Some(t) => t,
            None => {
                assert(false);
                return MidiTrackOutput { updates: Vec::new(), bares: Vec::new(), requests: Vec::new(), writes: Vec::new() };
            },
        };
        let ghost t0 = track;
        let track_id = track.track_id.clone();
        let smi = self.sends_mode_ms_send_index;
        let mut writes: Vec<MsWrite> = Vec::new();
        let mut updates: Vec<TrackUpdate> = Vec::new();
        let ghost w0 = writes@;
        let ghost up0 = updates@;

        let c0 = proxy_step(parsed, &self.layout[o], &mut track, smi, &mut writes, level_of);
        let ghost (t1, w1, gc0) = (track, writes@, c0@);
        push_changes(&mut updates, &track_id, c0);
        let ghost up1 = updates@;

        let c1 = volume_step(parsed, &self.layout[o], &mut track, smi, &mut writes, level_of);
        let ghost (t2, w2, gc1) = (track, writes@, c1@);
        push_changes(&mut updates, &track_id, c1);
        let ghost up2 = updates@;

        let c2 = mute_step(parsed, &self.layout[o], &mut track, smi, &self.send_mapping, &mut writes);
        let ghost (t3, w3, gc2) = (track, writes@, c2@);
        push_changes(&mut updates, &track_id, c2);
        let ghost up3 = updates@;

        let c3 = solo_step(parsed, &self.layout[o], &mut track, &mut writes);
        let ghost (t4, w4, gc3) = (track, writes@, c3@);
        push_changes(&mut updates, &track_id, c3);
        let ghost up4 = updates@;

        let c4 = pan_step(parsed, &self.layout[o], &mut track, primary, smi, &mut writes, dual_mono);
        let ghost (t5, w5, gc4) = (track, writes@, c4@);
        push_changes(&mut updates, &track_id, c4);
        let ghost up5 = updates@;

        let latch = selected_step(parsed, &self.layout[o], primary, self.bus_channel_start, &mut writes);
        let ghost w6 = writes@;
        let ghost cs5 = seq![gc0, gc1, gc2, gc3, gc4];
        let ghost early = stage_updates(track_id@, cs5, 5);
        proof {
            let id = track_id@;
            assert(updates_like(up0, stage_updates(id, cs5, 0)));
            lemma_updates_like_append(up0, up1, stage_updates(id, cs5, 0), single_update(id, pairs_view(gc0), false));
            lemma_updates_like_append(up1, up2, stage_updates(id, cs5, 1), single_update(id, pairs_view(gc1), false));
            lemma_updates_like_append(up2, up3, stage_updates(id, cs5, 2), single_update(id, pairs_view(gc2), false));
            lemma_updates_like_append(up3, up4, stage_updates(id, cs5, 3), single_update(id, pairs_view(gc3), false));
            lemma_updates_like_append(up4, up5, stage_updates(id, cs5, 4), single_update(id, pairs_view(gc4), false));
            assert(updates_like(up5, early));
        }

        let mut requests: Vec<MsRequest> = Vec::new();
        let ghost mut m2 = m1;
        let ghost mut m3 = m1;
        let ghost mut m4 = m1;
        let ghost mut u: Seq<TrackUpdate> = Seq::empty();
        let ghost mut t6 = t5;
        let mut ok2 = true;
        if let Some(next) = latch {
            self.track_cache.put(o, track);
            proof {
                m2 = *self;
                assert(self.track_cache.tracks() =~= m1.track_cache.tracks().insert(o, t5));
            }
            let (mut su, reqs) = self.set_sends_mode(next, rng);
            requests = reqs;
            proof {
                m3 = *self;
                u = su@;
            }
            ok2 = self.ensure_track(o, rng);
            proof { m4 = *self; }
            updates.append(&mut su);
            if !ok2 {
                let out = MidiTrackOutput { updates, bares: Vec::new(), requests, writes };
                proof {
                    let e = Seq::<(String, JsonValue)>::empty();
                    let ts = seq![t0, t1, t2, t3, t4, t5, t5, t5, t5, t5, t5];
                    let ws = seq![w0, w1, w2, w3, w4, w5, w6, w6, w6, w6, w6];
                    let cs = seq![gc0, gc1, gc2, gc3, gc4, e, e, e, e, e];
                    lemma_stage_updates_prefix(track_id@, cs5, cs, 5);
                    assert(out.updates@ =~= up5 + u);
                    assert(out.updates@.take(early.len() as int) =~= up5);
                    assert(out.updates@.subrange(early.len() as int, (early.len() + u.len()) as int) =~= u);
                    assert(midi_run(*old(self), *self, o, *parsed, level_of, dual_mono, gain_db, type_index, out, m1, ok,
                        ts, ws, cs, latch, m2, m3, u, m4, ok2));
                }
                return out;
            }
            track = match self.track_cache.take(o) {
                Some(t) => t,
                None => {
                    assert(false);
                    return MidiTrackOutput { updates: Vec::new(), bares: Vec::new(), requests: Vec::new(), writes: Vec::new() };
                },
            };
            proof { t6 = track; }
        }
        let ghost up6 = updates@;

        let c6 = send_slots_step(parsed, &self.layout[o], &mut track, &self.send_mapping, &mut writes, level_of);
        let ghost (t7, w7, gc6) = (track, writes@, c6@);
        push_changes(&mut updates, &track_id, c6);

        let (c7, c8, c9, mid) = dsp_steps(parsed, &self.layout[o], &mut track, &mut writes, gain_db, type_index);
        let ghost (t8, t9, w8, w9) = mid@;
        let ghost (t10, w10, gc7, gc8, gc9) = (track, writes@, c7@, c8@, c9@);

        let mut bares: Vec<BareUpdate> = Vec::new();
        push_bares(&mut bares, &track_id, c7);
        push_bares(&mut bares, &track_id, c8);
        push_bares(&mut bares, &track_id, c9);
        let ghost pre_put = *self;
        self.track_cache.put(o, track);
        let out = MidiTrackOutput { updates, bares, requests, writes };
        proof {
            let e = Seq::<(String, JsonValue)>::empty();
            let ts = seq![t0, t1, t2, t3, t4, t5, t6, t7, t8, t9, t10];
            let ws = seq![w0, w1, w2, w3, w4, w5, w6, w7, w8, w9, w10];
            let cs = seq![gc0, gc1, gc2, gc3, gc4, e, gc6, gc7, gc8, gc9];
            let id = track_id@;
            lemma_stage_updates_prefix(id, cs5, cs, 5);
            assert(up6 =~= up5 + u);
            let f = out.updates@;
            assert(f.take(up6.len() as int) == up6);
            assert(f.take(early.len() as int) =~= up5) by {
                assert(f.take(early.len() as int) =~= f.take(up6.len() as int).take(early.len() as int));
            }
            assert(f.subrange(early.len() as int, (early.len() + u.len()) as int) =~= u) by {
                assert forall|k: int| 0 <= k < u.len() implies f.subrange(early.len() as int, (early.len() + u.len()) as int)[k] == u[k] by {
                    assert(f[early.len() + k] == f.take(up6.len() as int)[early.len() + k]);
                }
            }
            assert(bares_of(id, gc7 + gc8 + gc9) =~= bares_of(id, gc7) + bares_of(id, gc8) + bares_of(id, gc9));
            let base = if latch is Some { m4 } else { m1 };
            assert(self.track_cache.tracks() =~= base.track_cache.tracks().insert(o, t10));
            assert(midi_run(*old(self), *self, o, *parsed, level_of, dual_mono, gain_db, type_index, out, m1, ok,
                ts, ws, cs, latch, m2, m3, u, m4, ok2));
        }
        out
    }
}

} // verus!
