//! The wire-safe projection of a cached track: exactly the fields Console 1 Fader Mk III's
//! firmware accepts in a `trackBatch` entry. DSP state has no field here, so it can never
//! reach a batch (the firmware rejects a whole batch over one unknown field).

use crate::json::{JsonValue, copy_json, json_eq};
use crate::track_cache::TrackInfo;
use vstd::prelude::*;

verus! {

/// The fields of one `trackBatch` entry. Floating-point fields are carried as `f64` bit
/// patterns.
#[derive(Debug)]
pub struct ConsoleTrackFields {
    pub track: i64,
    pub is_active: bool,
    pub track_id: String,
    pub color: u32,
    pub name: String,
    /// A number, or the string `"-Infinity"` for silence.
    pub volume: JsonValue,
    pub meter_bits: Vec<u64>,
    pub mute: bool,
    pub solo: bool,
    pub selected: bool,
    pub max_volume_value_bits: u64,
    pub max_send_value_bits: u64,
    pub pan_bits: u64,
    pub send1: JsonValue,
    pub send1_on: bool,
    pub send2: JsonValue,
    pub send2_on: bool,
    pub send3: JsonValue,
    pub send3_on: bool,
    pub send4: JsonValue,
    pub send4_on: bool,
    pub send5: JsonValue,
    pub send5_on: bool,
    pub send6: JsonValue,
    pub send6_on: bool,
}

/// `f` carries `t`'s Console 1 fields unchanged (JSON values up to structural equality).
pub open spec fn projects(f: ConsoleTrackFields, t: TrackInfo) -> bool {
    &&& f.track == t.track
    &&& f.is_active == t.is_active
    &&& f.track_id@ == t.track_id@
    &&& f.color == t.color
    &&& f.name@ == t.name@
    &&& json_eq(f.volume, t.volume)
    &&& f.meter_bits@ == t.meter_bits@
    &&& f.mute == t.mute
    &&& f.solo == t.solo
    &&& f.selected == t.selected
    &&& f.max_volume_value_bits == t.max_volume_value_bits
    &&& f.max_send_value_bits == t.max_send_value_bits
    &&& f.pan_bits == t.pan_bits
    &&& json_eq(f.send1, t.send_levels@[0]) && f.send1_on == t.send_on@[0]
    &&& json_eq(f.send2, t.send_levels@[1]) && f.send2_on == t.send_on@[1]
    &&& json_eq(f.send3, t.send_levels@[2]) && f.send3_on == t.send_on@[2]
    &&& json_eq(f.send4, t.send_levels@[3]) && f.send4_on == t.send_on@[3]
    &&& json_eq(f.send5, t.send_levels@[4]) && f.send5_on == t.send_on@[4]
    &&& json_eq(f.send6, t.send_levels@[5]) && f.send6_on == t.send_on@[5]
}

fn copy_bits(v: &Vec<u64>) -> (res: Vec<u64>)
    ensures
        res@ == v@,
{
    let mut out: Vec<u64> = Vec::new();
    let mut i: usize = 0;
    while i < v.len()
        invariant
            i <= v@.len(),
            out@ == v@.subrange(0, i as int),
        decreases v.len() - i,
    {
        out.push(v[i]);
        assert(out@ =~= v@.subrange(0, i + 1));
        i = i + 1;
    }
    assert(v@.subrange(0, v@.len() as int) =~= v@);
    out
}

impl ConsoleTrackFields {
    /// The `trackBatch` entry of a cached track (see [`projects`]).
    pub fn from_track(t: &TrackInfo) -> (res: ConsoleTrackFields)
        requires
            t.wf(),
        ensures
            projects(res, *t),
    {
        ConsoleTrackFields {
            track: t.track,
            is_active: t.is_active,
            track_id: t.track_id.clone(),
            color: t.color,
            name: t.name.clone(),
            volume: copy_json(&t.volume),
            meter_bits: copy_bits(&t.meter_bits),
            mute: t.mute,
            solo: t.solo,
            selected: t.selected,
            max_volume_value_bits: t.max_volume_value_bits,
            max_send_value_bits: t.max_send_value_bits,
            pan_bits: t.pan_bits,
            send1: copy_json(&t.send_levels[0]),
            send1_on: t.send_on[0],
            send2: copy_json(&t.send_levels[1]),
            send2_on: t.send_on[1],
            send3: copy_json(&t.send_levels[2]),
            send3_on: t.send_on[2],
            send4: copy_json(&t.send_levels[3]),
            send4_on: t.send_on[3],
            send5: copy_json(&t.send_levels[4]),
            send5_on: t.send_on[4],
            send6: copy_json(&t.send_levels[5]),
            send6_on: t.send_on[5],
        }
    }
}

} // verus!
