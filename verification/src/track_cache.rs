//! Live per-slot Console 1 track state: default-track construction, naming, and the cache
//! holding every slot's current track.
//!
//! Floating-point fields of a track (meter, maximum values, pan, real-unit DSP values) are
//! kept as the bit patterns of their `f64`.

use crate::dsp_field_metadata::{DSP_FIELD_NAMES, F64_HALF_BITS, F64_INPUT_GAIN_UNITY_BITS};
use crate::json::{JsonNumber, JsonValue, NumberKind, int_number, int_json};
use crate::lifecycle::Lifecycle;
use crate::text::{append_chars, decimal, decimal_chars, owned, string_from_chars};
use crate::track_id::TrackIdRegistry;
use crate::track_layout::{LayoutSlot, LayoutSlotKind};
use std::collections::HashMap;
use rand::rngs::StdRng;
use vstd::prelude::*;

verus! {

broadcast use vstd::std_specs::hash::group_hash_axioms;

/// The bit pattern of `10.0_f64`, the default maximum volume and send values.
pub const F64_TEN_BITS: u64 = 0x4024_0000_0000_0000;

/// The default track color (`0x686866`).
pub const DEFAULT_TRACK_COLOR: u32 = 6842214;

/// Live per-slot Console 1 track state.
#[derive(Debug)]
pub struct TrackInfo {
    pub track: i64,
    pub is_active: bool,
    pub track_id: String,
    pub color: u32,
    pub name: String,
    /// A number, or the string `"-Infinity"` for silence.
    pub volume: JsonValue,
    /// Meter readings, as `f64` bit patterns.
    pub meter_bits: Vec<u64>,
    pub mute: bool,
    pub solo: bool,
    pub selected: bool,
    pub max_volume_value_bits: u64,
    pub max_send_value_bits: u64,
    /// Pan 0..1, as an `f64` bit pattern.
    pub pan_bits: u64,
    /// send1..6 levels (index 0 = send1).
    pub send_levels: Vec<JsonValue>,
    /// send1On..6On (index 0 = send1On).
    pub send_on: Vec<bool>,
    /// Filter/EQ/Compressor 0..1 values by bare field name; never sent in a track batch.
    pub dsp_fields: Vec<(String, JsonValue)>,
    /// Real-unit companion values of continuous DSP fields, as `f64` bit patterns.
    pub dsp_real_value_bits: Vec<(String, u64)>,
}

impl TrackInfo {
    /// Six send slots.
    pub open spec fn wf(&self) -> bool {
        &&& self.send_levels@.len() == 6
        &&& self.send_on@.len() == 6
    }
}

/// Colors used when building a slot's default track.
#[derive(Debug, Clone, Copy, PartialEq, Eq, Structural)]
pub struct DefaultTrackColors {
    pub bus_color: u32,
    pub main_color: u32,
    pub status_off_color: u32,
    pub status_on_color: u32,
    pub start_color: u32,
    pub stop_color: u32,
}

/// `prefix + n` followed, for a pair, by `"+" + m`.
pub open spec fn numbered_name(prefix: Seq<char>, n: nat, second: Option<nat>) -> Seq<char> {
    match second {
        Some(m) => prefix + decimal(n) + seq!['+'] + decimal(m),
        None => prefix + decimal(n),
    }
}

/// A slot's default display name: `Ch n` (or `Ch n+m` for a stereo pair, 1-based MS
/// channels) for inputs, `Bus n` (or `Bus n+m`, bus numbers counted from
/// `bus_channel_start`) for buses, `Main` for Main, and empty otherwise.
pub open spec fn default_slot_name(slot: LayoutSlot, bus_channel_start: usize) -> Seq<char> {
    let chs = slot.ms_channels@;
    match slot.kind {
        LayoutSlotKind::Input => if chs.len() == 2 {
            numbered_name(seq!['C', 'h', ' '], (chs[0] + 1) as nat, Some((chs[1] + 1) as nat))
        } else {
            match slot.ms_primary {
                Some(p) => numbered_name(seq!['C', 'h', ' '], (p + 1) as nat, None),
                None => Seq::empty(),
            }
        },
        LayoutSlotKind::Bus => if chs.len() == 2 {
            numbered_name(
                seq!['B', 'u', 's', ' '],
                (chs[0] - bus_channel_start + 1) as nat,
                Some((chs[1] - bus_channel_start + 1) as nat),
            )
        } else {
            match slot.ms_primary {
                Some(p) => numbered_name(seq!['B', 'u', 's', ' '], (p - bus_channel_start + 1) as nat, None),
                None => Seq::empty(),
            }
        },
        LayoutSlotKind::Main => seq!['M', 'a', 'i', 'n'],
        LayoutSlotKind::Empty => Seq::empty(),
    }
}

/// The slot's channel numbers can be rendered without overflow: input channels stay below
/// `usize::MAX`, bus channels lie at or above `bus_channel_start` (and below `usize::MAX`).
pub open spec fn nameable_slot(slot: LayoutSlot, bus_channel_start: usize) -> bool {
    let chs = slot.ms_channels@;
    match slot.kind {
        LayoutSlotKind::Input => if chs.len() == 2 {
            chs[0] < usize::MAX && chs[1] < usize::MAX
        } else {
            slot.ms_primary matches Some(p) ==> p < usize::MAX
        },
        LayoutSlotKind::Bus => if chs.len() == 2 {
            bus_channel_start <= chs[0] < usize::MAX && bus_channel_start <= chs[1] < usize::MAX
        } else {
            slot.ms_primary matches Some(p) ==> bus_channel_start <= p < usize::MAX
        },
        _ => true,
    }
}

fn numbered(prefix: &[char], n: usize, second: Option<usize>) -> (res: String)
    ensures
        res@ == numbered_name(prefix@, n as nat, match second { Some(m) => Some(m as nat), None => None }),
{
    let mut out: Vec<char> = Vec::new();
    append_chars(&mut out, prefix);
    let d = decimal_chars(n as u64);
    append_chars(&mut out, d.as_slice());
    if let Some(m) = second {
        out.push('+');
        let d2 = decimal_chars(m as u64);
        append_chars(&mut out, d2.as_slice());
    }
    string_from_chars(out.as_slice())
}

/// Compute a layout slot's default display name (the fallback used when Mixing Station
/// provides an empty channel name).
pub fn default_name_for_slot(slot: &LayoutSlot, bus_channel_start: usize) -> (res: String)
    requires
        nameable_slot(*slot, bus_channel_start),
    ensures
        res@ == default_slot_name(*slot, bus_channel_start),
{
    let ch_prefix: Vec<char> = vec!['C', 'h', ' '];
    let bus_prefix: Vec<char> = vec!['B', 'u', 's', ' '];
    assert(ch_prefix@ == seq!['C', 'h', ' ']);
    assert(bus_prefix@ == seq!['B', 'u', 's', ' ']);
    match slot.kind {
        LayoutSlotKind::Input => {
            if slot.ms_channels.len() == 2 {
                numbered(ch_prefix.as_slice(), slot.ms_channels[0] + 1, Some(slot.ms_channels[1] + 1))
            } else if let Some(p) = slot.ms_primary {
                numbered(ch_prefix.as_slice(), p + 1, None)
            } else {
                String::new()
            }
        },
        LayoutSlotKind::Bus => {
            if slot.ms_channels.len() == 2 {
                numbered(
                    bus_prefix.as_slice(),
                    slot.ms_channels[0] - bus_channel_start + 1,
                    Some(slot.ms_channels[1] - bus_channel_start + 1),
                )
            } else if let Some(p) = slot.ms_primary {
                numbered(bus_prefix.as_slice(), p - bus_channel_start + 1, None)
            } else {
                String::new()
            }
        },
        LayoutSlotKind::Main => {
            let m: Vec<char> = vec!['M', 'a', 'i', 'n'];
            assert(m@ == seq!['M', 'a', 'i', 'n']);
            string_from_chars(m.as_slice())
        },
        LayoutSlotKind::Empty => String::new(),
    }
}

/// The default value of DSP field number `i` of [`DSP_FIELD_NAMES`]: switches off, EQ
/// frequency/gain/Q centred (0.5), the input gain at 0 dB, everything else 0.
pub open spec fn default_dsp_value(i: int) -> JsonValue {
    if i == 0 || i == 3 || i == 24 || (4 <= i < 24 && (i - 4) % 5 == 0) {
        JsonValue::Bool(false)
    } else if i == 2 {
        JsonValue::Number(JsonNumber { kind: NumberKind::Float, f64_bits: F64_INPUT_GAIN_UNITY_BITS })
    } else if 4 <= i < 24 && (i - 4) % 5 != 4 {
        JsonValue::Number(JsonNumber { kind: NumberKind::Float, f64_bits: F64_HALF_BITS })
    } else {
        JsonValue::Number(int_json(0))
    }
}

fn default_dsp_value_of(i: usize) -> (res: JsonValue)
    ensures
        res == default_dsp_value(i as int),
{
    if i == 0 || i == 3 || i == 24 || (4 <= i && i < 24 && (i - 4) % 5 == 0) {
        JsonValue::Bool(false)
    } else if i == 2 {
        JsonValue::Number(JsonNumber { kind: NumberKind::Float, f64_bits: F64_INPUT_GAIN_UNITY_BITS })
    } else if 4 <= i && i < 24 && (i - 4) % 5 != 4 {
        JsonValue::Number(JsonNumber { kind: NumberKind::Float, f64_bits: F64_HALF_BITS })
    } else {
        let n = int_number(0);
        proof {
            assert(exact_f64_bits_zero()) by {
                reveal_with_fuel(crate::json::top_exp, 1);
            }
        }
        JsonValue::Number(n)
    }
}

spec fn exact_f64_bits_zero() -> bool {
    crate::json::exact_f64_bits(0) == 0 && crate::json::nearest_f64_bits(0) == 0
}

/// The default DSP field values of a new track: every field of [`DSP_FIELD_NAMES`], in
/// that order, with its [`default_dsp_value`].
pub fn default_dsp_fields() -> (res: Vec<(String, JsonValue)>)
    ensures
        res@.len() == 32,
        forall|i: int| 0 <= i < 32 ==> (#[trigger] res@[i]).0@ == DSP_FIELD_NAMES@[i]@ && res@[i].1 == default_dsp_value(i),
{
    let names = DSP_FIELD_NAMES;
    let mut out: Vec<(String, JsonValue)> = Vec::new();
    let mut i: usize = 0;
    while i < 32
        invariant
            i <= 32,
            names == DSP_FIELD_NAMES,
            out@.len() == i,
            forall|k: int| 0 <= k < i ==> (#[trigger] out@[k]).0@ == DSP_FIELD_NAMES@[k]@ && out@[k].1 == default_dsp_value(k),
        decreases 32 - i,
    {
        out.push((owned(names[i]), default_dsp_value_of(i)));
        i = i + 1;
    }
    out
}

/// The JSON number 0.
pub open spec fn json_zero() -> JsonValue {
    JsonValue::Number(int_json(0))
}

pub(crate) fn zero_value() -> (res: JsonValue)
    ensures
        res == json_zero(),
{
    let n = int_number(0);
    assert(crate::json::nearest_f64_bits(0) == 0);
    JsonValue::Number(n)
}

/// `t` is the default track of `slot`: track number `object_id + 1`, active unless the
/// slot is empty, the bus/main color for buses/Main and the default color otherwise, the
/// slot's default name, volume and sends 0 and off, meter 0, maximum values 10, pan
/// centred, the default DSP fields and no real-unit values.
pub open spec fn is_default_track(t: TrackInfo, slot: LayoutSlot, track_id: Seq<char>, colors: DefaultTrackColors, bus_channel_start: usize) -> bool {
    &&& t.track == slot.object_id as i64 + 1
    &&& t.is_active == !(slot.kind is Empty)
    &&& t.track_id@ == track_id
    &&& t.color == match slot.kind {
        LayoutSlotKind::Bus => colors.bus_color,
        LayoutSlotKind::Main => colors.main_color,
        _ => DEFAULT_TRACK_COLOR,
    }
    &&& t.name@ == default_slot_name(slot, bus_channel_start)
    &&& t.volume == json_zero()
    &&& t.meter_bits@ == seq![0u64]
    &&& !t.mute && !t.solo && !t.selected
    &&& t.max_volume_value_bits == F64_TEN_BITS
    &&& t.max_send_value_bits == F64_TEN_BITS
    &&& t.pan_bits == F64_HALF_BITS
    &&& t.send_levels@.len() == 6
    &&& forall|i: int| 0 <= i < 6 ==> #[trigger] t.send_levels@[i] == json_zero()
    &&& t.send_on@ == seq![false, false, false, false, false, false]
    &&& t.dsp_fields@.len() == 32
    &&& forall|i: int| 0 <= i < 32 ==> (#[trigger] t.dsp_fields@[i]).0@ == DSP_FIELD_NAMES@[i]@ && t.dsp_fields@[i].1 == default_dsp_value(i)
    &&& t.dsp_real_value_bits@.len() == 0
}

/// Builds the default Console 1 track of a freshly created layout slot.
pub fn create_default_track_for_slot(
    slot: &LayoutSlot,
    track_id: String,
    lifecycle: Lifecycle,
    colors: &DefaultTrackColors,
    bus_channel_start: usize,
) -> (res: TrackInfo)
    requires
        nameable_slot(*slot, bus_channel_start),
        (slot.object_id as i64) < i64::MAX,
    ensures
        is_default_track(res, *slot, track_id@, *colors, bus_channel_start),
        res.wf(),
{
    let color = match slot.kind {
        LayoutSlotKind::Bus => colors.bus_color,
        LayoutSlotKind::Main => colors.main_color,
        _ => DEFAULT_TRACK_COLOR,
    };
    let is_active = match slot.kind {
        LayoutSlotKind::Empty => false,
        _ => true,
    };
    let name = default_name_for_slot(slot, bus_channel_start);
    let mut send_levels: Vec<JsonValue> = Vec::new();
    let mut k: usize = 0;
    while k < 6
        invariant
            k <= 6,
            send_levels@.len() == k,
            forall|i: int| 0 <= i < k ==> #[trigger] send_levels@[i] == json_zero(),
        decreases 6 - k,
    {
        send_levels.push(zero_value());
        k = k + 1;
    }
    let meter_bits = vec![0u64];
    let send_on = vec![false, false, false, false, false, false];
    assert(meter_bits@ == seq![0u64]);
    assert(send_on@ == seq![false, false, false, false, false, false]);
    let dsp_fields = default_dsp_fields();
    TrackInfo {
        track: slot.object_id as i64 + 1,
        is_active,
        track_id,
        color,
        name,
        volume: zero_value(),
        meter_bits,
        mute: false,
        solo: false,
        selected: false,
        max_volume_value_bits: F64_TEN_BITS,
        max_send_value_bits: F64_TEN_BITS,
        pan_bits: F64_HALF_BITS,
        send_levels,
        send_on,
        dsp_fields,
        dsp_real_value_bits: Vec::new(),
    }
}

/// The per-slot track cache, and the trackId registry behind it.
#[derive(Debug)]
pub struct TrackCache {
    tracks: HashMap<usize, TrackInfo>,
    track_ids: TrackIdRegistry,
}

impl TrackCache {
    /// The cached tracks, by object ID.
    pub closed spec fn tracks(&self) -> Map<usize, TrackInfo> {
        self.tracks@
    }

    /// The trackId registry.
    pub closed spec fn registry(&self) -> TrackIdRegistry {
        self.track_ids
    }

    /// Every cached track is well formed, carries the trackId registered for its slot,
    /// and the registry is well formed.
    pub closed spec fn wf(&self) -> bool {
        &&& self.track_ids.wf()
        &&& forall|id: usize| #[trigger] self.tracks@.contains_key(id) ==> self.tracks@[id].wf()
            && self.track_ids.track_id_of(id) == Some(self.tracks@[id].track_id@)
    }

    pub fn new() -> (res: Self)
        ensures
            res.wf(),
            res.tracks().len() == 0,
            res.tracks() == Map::<usize, TrackInfo>::empty(),
            res.registry().entries().len() == 0,
    {
        TrackCache { tracks: HashMap::new(), track_ids: TrackIdRegistry::new() }
    }

    /// Makes sure the slot `object_id` has a cached track, creating its default track
    /// (with the slot's stable trackId) on first access; an existing track is kept as is.
    pub fn get_or_create(
        &mut self,
        object_id: usize,
        slot: &LayoutSlot,
        lifecycle: Lifecycle,
        colors: &DefaultTrackColors,
        bus_channel_start: usize,
        rng: &mut StdRng,
    ) -> (res: &TrackInfo)
        requires
            old(self).wf(),
            old(self).tracks().contains_key(object_id) || old(self).registry().entries().len() < 0xffff_ffff,
            nameable_slot(*slot, bus_channel_start),
            (slot.object_id as i64) < i64::MAX,
        ensures
            final(self).wf(),
            final(self).tracks().contains_key(object_id),
            *res == final(self).tracks()[object_id],
            old(self).tracks().contains_key(object_id) ==> final(self).tracks() == old(self).tracks()
                && final(self).registry() == old(self).registry(),
            forall|x: usize| x != object_id ==> #[trigger] final(self).registry().track_id_of(x)
                == old(self).registry().track_id_of(x),
            final(self).registry().entries().len() <= old(self).registry().entries().len() + 1,
            old(self).registry().track_id_of(object_id) is Some ==> final(self).registry().track_id_of(object_id)
                == old(self).registry().track_id_of(object_id),
            !old(self).tracks().contains_key(object_id) ==> {
                &&& final(self).tracks() == old(self).tracks().insert(object_id, final(self).tracks()[object_id])
                &&& final(self).registry().track_id_of(object_id) is Some
                &&& is_default_track(final(self).tracks()[object_id], *slot,
                    final(self).registry().track_id_of(object_id).unwrap(), *colors, bus_channel_start)
            },
    {
        if !self.tracks.contains_key(&object_id) {
            let track_id = self.track_ids.get_or_create(object_id, rng);
            let track = create_default_track_for_slot(slot, track_id, lifecycle, colors, bus_channel_start);
            self.tracks.insert(object_id, track);
            proof {
                assert forall|id: usize| #[trigger] self.tracks@.contains_key(id) implies self.tracks@[id].wf()
                    && self.track_ids.track_id_of(id) == Some(self.tracks@[id].track_id@) by {
                    if id != object_id {
                        assert(old(self).tracks@.contains_key(id));
                    }
                }
            }
        }
        self.tracks.get(&object_id).unwrap()
    }

    /// The registry is well formed, and every cached track is well formed and carries its
    /// slot's registered trackId.
    pub proof fn lemma_cached_tracks_wf(&self)
        requires
            self.wf(),
        ensures
            self.registry().wf(),
            forall|id: usize| #[trigger] self.tracks().contains_key(id) ==> self.tracks()[id].wf()
                && self.registry().track_id_of(id) == Some(self.tracks()[id].track_id@),
    {
    }

    /// The cached track of a slot, if one has been created.
    pub fn get(&self, object_id: usize) -> (res: Option<&TrackInfo>)
        ensures
            match res {
                Some(t) => self.tracks().contains_key(object_id) && *t == self.tracks()[object_id],
                None => !self.tracks().contains_key(object_id),
            },
    {
        self.tracks.get(&object_id)
    }

    /// Takes a slot's track out of the cache to be updated, if it has one.
    pub fn take(&mut self, object_id: usize) -> (res: Option<TrackInfo>)
        requires
            old(self).wf(),
        ensures
            final(self).tracks() == old(self).tracks().remove(object_id),
            final(self).registry() == old(self).registry(),
            match res {
                Some(t) => old(self).tracks().contains_key(object_id) && t == old(self).tracks()[object_id]
                    && t.wf() && final(self).registry().track_id_of(object_id) == Some(t.track_id@),
                None => !old(self).tracks().contains_key(object_id),
            },
            final(self).wf(),
    {
        let res = self.tracks.remove(&object_id);
        proof {
            assert forall|id: usize| #[trigger] self.tracks@.contains_key(id) implies self.tracks@[id].wf()
                && self.track_ids.track_id_of(id) == Some(self.tracks@[id].track_id@) by {
                assert(old(self).tracks@.contains_key(id));
            }
        }
        res
    }

    /// Puts a slot's track (taken out with [`TrackCache::take`]) back.
    pub fn put(&mut self, object_id: usize, track: TrackInfo)
        requires
            old(self).wf(),
            track.wf(),
            old(self).registry().track_id_of(object_id) == Some(track.track_id@),
        ensures
            final(self).wf(),
            final(self).tracks() == old(self).tracks().insert(object_id, track),
            final(self).registry() == old(self).registry(),
    {
        self.tracks.insert(object_id, track);
        proof {
            assert forall|id: usize| #[trigger] self.tracks@.contains_key(id) implies self.tracks@[id].wf()
                && self.track_ids.track_id_of(id) == Some(self.tracks@[id].track_id@) by {
                if id != object_id {
                    assert(old(self).tracks@.contains_key(id));
                }
            }
        }
    }

    /// Resolves a Console 1 trackId back to its object ID, if known.
    pub fn object_id_for_track_id(&self, track_id: &str) -> (res: Option<usize>)
        requires
            self.wf(),
        ensures
            match res {
                Some(id) => self.registry().track_id_of(id) == Some(track_id@),
                None => forall|id: usize| self.registry().track_id_of(id) != Some(track_id@),
            },
    {
        self.track_ids.object_id_for_track_id(track_id)
    }

    /// Drops every cached track (entering standby, or on a layout rebuild); trackIds stay.
    pub fn clear(&mut self)
        requires
            old(self).wf(),
        ensures
            final(self).wf(),
            final(self).tracks() == Map::<usize, TrackInfo>::empty(),
            final(self).registry() == old(self).registry(),
    {
        self.tracks.clear();
    }

    /// How many object IDs have a registered trackId.
    pub fn registered_count(&self) -> (res: usize)
        ensures
            res == self.registry().entries().len(),
    {
        self.track_ids.registered_len()
    }

    /// The object IDs that have a cached track, each once, in trackId registration order.
    pub fn cached_object_ids(&self) -> (res: Vec<usize>)
        requires
            self.wf(),
        ensures
            res@.to_set() == self.tracks().dom(),
            res@.no_duplicates(),
    {
        let reg = self.track_ids.registered_object_ids();
        let ghost ids = reg@;
        let mut out: Vec<usize> = Vec::new();
        let mut i: usize = 0;
        while i < reg.len()
            invariant
                self.wf(),
                ids == reg@,
                ids == self.track_ids.entries().map_values(|e: (usize, u32)| e.0),
                ids.no_duplicates(),
                i <= ids.len(),
                out@.no_duplicates(),
                forall|x: usize| #[trigger] out@.contains(x) <==> (self.tracks@.contains_key(x)
                    && ids.subrange(0, i as int).contains(x)),
            decreases reg.len() - i,
        {
            let id = reg[i];
            let ghost before = out@;
            proof {
                if ids.subrange(0, i as int).contains(id) {
                    let j = choose|j: int| 0 <= j < i && #[trigger] ids.subrange(0, i as int)[j] == id;
                    assert(ids[j] == ids[i as int]);
                }
            }
            if self.tracks.contains_key(&id) {
                out.push(id);
                proof {
                    assert forall|a: int, b: int| 0 <= a < out@.len() && 0 <= b < out@.len() && a != b
                        implies out@[a] != out@[b] by {
                        if a < before.len() && b < before.len() {
                        } else if a < before.len() {
                            assert(before.contains(out@[a]));
                        } else {
                            assert(before.contains(out@[b]));
                        }
                    }
                }
            }
            proof {
                assert forall|x: usize| #[trigger] out@.contains(x) <==> (self.tracks@.contains_key(x)
                    && ids.subrange(0, i + 1).contains(x)) by {
                    if ids.subrange(0, i + 1).contains(x) {
                        let j = choose|j: int| 0 <= j < i + 1 && #[trigger] ids.subrange(0, i + 1)[j] == x;
                        if j < i {
                            assert(ids.subrange(0, i as int)[j] == x);
                        } else {
                            assert(x == id);
                        }
                    }
                    if ids.subrange(0, i as int).contains(x) {
                        let j = choose|j: int| 0 <= j < i && #[trigger] ids.subrange(0, i as int)[j] == x;
                        assert(ids.subrange(0, i + 1)[j] == x);
                    }
                    if out@.contains(x) && !before.contains(x) {
                        let j = choose|j: int| 0 <= j < out@.len() && #[trigger] out@[j] == x;
                        assert(j == before.len());
                        assert(ids.subrange(0, i + 1)[i as int] == x);
                    }
                    if before.contains(x) {
                        let j = choose|j: int| 0 <= j < before.len() && #[trigger] before[j] == x;
                        assert(out@[j] == x);
                    }
                    if x == id && self.tracks@.contains_key(x) {
                        assert(out@[out@.len() - 1] == x);
                    }
                }
            }
            i = i + 1;
        }
        proof {
            assert(ids.subrange(0, ids.len() as int) =~= ids);
            assert forall|x: usize| self.tracks@.contains_key(x) implies ids.contains(x) by {
                assert(self.track_ids.track_id_of(x) is Some);
                let k = choose|k: int| 0 <= k < self.track_ids.entries().len() && #[trigger] self.track_ids.entries()[k].0 == x;
                assert(ids[k] == x);
            }
            assert forall|x: usize| #[trigger] out@.to_set().contains(x) == self.tracks@.dom().contains(x) by {
                if out@.to_set().contains(x) {
                    assert(out@.contains(x));
                }
                if self.tracks@.dom().contains(x) {
                    assert(out@.contains(x));
                }
            }
            assert(out@.to_set() =~= self.tracks@.dom());
        }
        out
    }

    /// Drops the cached tracks of every slot above `last_kept` (the real-channel banks),
    /// keeping the status/Start bank's; trackIds stay.
    pub fn reset_real_channels(&mut self, last_kept: usize)
        requires
            old(self).wf(),
        ensures
            final(self).wf(),
            final(self).registry() == old(self).registry(),
            final(self).tracks() == old(self).tracks().restrict(
                old(self).tracks().dom().filter(|id: usize| id <= last_kept)),
    {
        let ids = self.cached_object_ids();
        let ghost start = self.tracks@;
        let mut i: usize = 0;
        while i < ids.len()
            invariant
                self.wf(),
                self.track_ids == old(self).track_ids,
                start == old(self).tracks@,
                ids@.to_set() == start.dom(),
                ids@.no_duplicates(),
                i <= ids@.len(),
                forall|id: usize| #[trigger] self.tracks@.contains_key(id) <==> (start.contains_key(id)
                    && (id <= last_kept || !ids@.subrange(0, i as int).contains(id))),
                forall|id: usize| #[trigger] self.tracks@.contains_key(id) ==> self.tracks@[id] == start[id],
            decreases ids.len() - i,
        {
            let id = ids[i];
            let ghost pre = self.tracks@;
            if id > last_kept {
                self.tracks.remove(&id);
                proof {
                    assert forall|x: usize| #[trigger] self.tracks@.contains_key(x) implies self.tracks@[x].wf()
                        && self.track_ids.track_id_of(x) == Some(self.tracks@[x].track_id@) by {
                        assert(start.contains_key(x));
                    }
                }
            }
            proof {
                assert forall|x: usize| #[trigger] self.tracks@.contains_key(x) <==> (start.contains_key(x)
                    && (x <= last_kept || !ids@.subrange(0, i + 1).contains(x))) by {
                    assert(ids@.subrange(0, i + 1)[i as int] == id);
                    if x == id {
                        assert(ids@.subrange(0, i + 1).contains(x));
                        assert(start.contains_key(x)) by {
                            assert(ids@.to_set().contains(x));
                        }
                    } else {
                        assert(self.tracks@.contains_key(x) == pre.contains_key(x));
                    }
                    if ids@.subrange(0, i + 1).contains(x) && !ids@.subrange(0, i as int).contains(x) {
                        let j = choose|j: int| 0 <= j < i + 1 && #[trigger] ids@.subrange(0, i + 1)[j] == x;
                        assert(j == i as int);
                    }
                    if ids@.subrange(0, i as int).contains(x) {
                        let j = choose|j: int| 0 <= j < i && #[trigger] ids@.subrange(0, i as int)[j] == x;
                        assert(ids@.subrange(0, i + 1)[j] == x);
                    }
                }
            }
            i = i + 1;
        }
        proof {
            assert(ids@.subrange(0, ids@.len() as int) =~= ids@);
            assert forall|x: usize| start.contains_key(x) implies ids@.contains(x) by {
                assert(ids@.to_set().contains(x));
            }
            assert(self.tracks@ =~= start.restrict(start.dom().filter(|id: usize| id <= last_kept)));
        }
    }
}

} // verus!
