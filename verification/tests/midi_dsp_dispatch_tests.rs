use c1_bridge::channel_data_message::MsFormat;
use c1_bridge::json::{i64_number, json_equal, JsonNumber, JsonValue, NumberKind};
use c1_bridge::lifecycle::Lifecycle;
use c1_bridge::midi_dsp_dispatch::{clamp01, handle_midi_comp_update, handle_midi_eq_update, handle_midi_filter_update};
use c1_bridge::midi_mixer_dispatch::MsWrite;
use c1_bridge::track_cache::{create_default_track_for_slot, DefaultTrackColors, TrackInfo};
use c1_bridge::track_layout::{LayoutSlot, LayoutSlotKind};

fn jint(n: i64) -> JsonValue {
    JsonValue::Number(i64_number(n))
}
fn flt(x: f64) -> JsonValue {
    JsonValue::Number(JsonNumber { kind: NumberKind::Float, f64_bits: x.to_bits() })
}
fn obj(pairs: Vec<(&str, JsonValue)>) -> JsonValue {
    JsonValue::Object(pairs.into_iter().map(|(k, v)| (k.to_string(), v)).collect())
}
fn wrapped(key: &str, v: JsonValue) -> JsonValue {
    obj(vec![(key, obj(vec![("value", v)]))])
}
fn field<'a>(pairs: &'a [(String, JsonValue)], key: &str) -> Option<&'a JsonValue> {
    pairs.iter().find(|(k, _)| k == key).map(|(_, v)| v)
}
fn same(a: Option<&JsonValue>, b: &JsonValue) -> bool {
    a.map_or(false, |a| json_equal(a, b))
}
fn bare_is(bare: &[(String, JsonValue)], key: &str, v: &JsonValue) -> bool {
    bare.len() == 1 && bare[0].0 == key && json_equal(&bare[0].1, v)
}
fn write_is(w: &MsWrite, path: &str, value: &JsonValue, format: MsFormat) -> bool {
    w.path == path && json_equal(&w.value, value) && w.format == format
}

/// The input-gain knob's 0..1 position as dB: -12 dB..60 dB, linearly.
fn gain_db(bits: u64) -> u64 {
    let n = f64::from_bits(bits).clamp(0.0, 1.0);
    (-12.0 + n * 72.0).to_bits()
}
/// The EQ-type knob's 0..1 position as a type index 0..=5.
fn type_index(bits: u64) -> usize {
    (f64::from_bits(bits) * 5.0).round().clamp(0.0, 5.0) as usize
}

fn input_slot() -> LayoutSlot {
    LayoutSlot { object_id: 10, kind: LayoutSlotKind::Input, ms_channels: vec![0], ms_primary: Some(0), pan_locked: false }
}
fn main_slot() -> LayoutSlot {
    LayoutSlot { object_id: 69, kind: LayoutSlotKind::Main, ms_channels: vec![70, 71], ms_primary: Some(70), pan_locked: true }
}
fn bus_slot() -> LayoutSlot {
    LayoutSlot { object_id: 20, kind: LayoutSlotKind::Bus, ms_channels: vec![50], ms_primary: Some(50), pan_locked: false }
}
fn default_colors() -> DefaultTrackColors {
    DefaultTrackColors {
        bus_color: 0x00a5ff,
        main_color: 0x00a5ff,
        status_off_color: 0x333333,
        status_on_color: 0x00ff00,
        start_color: 0x00a5ff,
        stop_color: 0x999999,
    }
}
fn default_track(slot: &LayoutSlot) -> TrackInfo {
    create_default_track_for_slot(slot, "trk-1".to_string(), Lifecycle::Running, &default_colors(), 48)
}

#[test]
fn filter_update_absent_fields_is_a_no_op() {
    let mut track = default_track(&input_slot());
    let mut writes = Vec::new();
    let bare = handle_midi_filter_update(&obj(vec![]), &input_slot(), &mut track, &mut writes, gain_db);
    assert!(bare.is_empty());
    assert!(writes.is_empty());
}

#[test]
fn filter_update_lc_on_unwraps_value_wrapper_and_writes() {
    let mut track = default_track(&input_slot());
    let mut writes = Vec::new();
    let bare =
        handle_midi_filter_update(&wrapped("filterLcOn", JsonValue::Bool(true)), &input_slot(), &mut track, &mut writes, gain_db);
    assert!(same(field(&track.dsp_fields, "filterLcOn"), &JsonValue::Bool(true)));
    assert!(bare_is(&bare, "filterLcOn", &JsonValue::Bool(true)));
    assert!(write_is(&writes[0], "ch.0.preamp.filter.0.on", &jint(1), MsFormat::Val));
}

#[test]
fn filter_update_lc_freq_clamps_and_writes_norm() {
    let mut track = default_track(&input_slot());
    let mut writes = Vec::new();
    handle_midi_filter_update(&wrapped("filterLcFreq", flt(1.5)), &input_slot(), &mut track, &mut writes, gain_db);
    assert!(same(field(&track.dsp_fields, "filterLcFreq"), &flt(1.0)));
    assert_eq!(writes[0].path, "ch.0.preamp.filter.0.freq");
    assert_eq!(writes[0].format, MsFormat::Norm);
}

#[test]
fn filter_update_pre_gain_converts_to_real_db_for_headamp_gain() {
    let mut track = default_track(&input_slot());
    let mut writes = Vec::new();
    handle_midi_filter_update(&wrapped("filterPreGain", flt(1.0)), &input_slot(), &mut track, &mut writes, gain_db);
    assert!(write_is(&writes[0], "ch.0.headamp.gain", &flt(60.0), MsFormat::Val));
}

#[test]
fn filter_update_phase_invert_writes_preamp_inv() {
    let mut track = default_track(&input_slot());
    let mut writes = Vec::new();
    handle_midi_filter_update(&wrapped("filterPhaseInvert", JsonValue::Bool(true)), &input_slot(), &mut track, &mut writes, gain_db);
    assert!(write_is(&writes[0], "ch.0.preamp.inv", &jint(1), MsFormat::Val));
}

#[test]
fn filter_update_works_on_main_slot() {
    let mut track = default_track(&main_slot());
    let mut writes = Vec::new();
    let bare =
        handle_midi_filter_update(&wrapped("filterLcOn", JsonValue::Bool(true)), &main_slot(), &mut track, &mut writes, gain_db);
    assert!(!bare.is_empty());
    assert_eq!(writes.len(), 2);
}

#[test]
fn eq_update_absent_fields_is_a_no_op() {
    let mut track = default_track(&input_slot());
    let mut writes = Vec::new();
    let bare = handle_midi_eq_update(&obj(vec![]), &input_slot(), &mut track, &mut writes, type_index);
    assert!(bare.is_empty());
}

#[test]
fn eq_update_band_2_on_writes_shared_peq_on_path() {
    let mut track = default_track(&input_slot());
    let mut writes = Vec::new();
    let bare = handle_midi_eq_update(&wrapped("eq2On", JsonValue::Bool(true)), &input_slot(), &mut track, &mut writes, type_index);
    assert!(same(field(&track.dsp_fields, "eq2On"), &JsonValue::Bool(true)));
    assert!(bare_is(&bare, "eq2On", &JsonValue::Bool(true)));
    assert!(write_is(&writes[0], "ch.0.peq.on", &jint(1), MsFormat::Val));
}

#[test]
fn eq_update_band_3_freq_writes_zero_based_band_index() {
    let mut track = default_track(&input_slot());
    let mut writes = Vec::new();
    handle_midi_eq_update(&wrapped("eq3Freq", flt(0.5)), &input_slot(), &mut track, &mut writes, type_index);
    assert_eq!(writes[0].path, "ch.0.peq.bands.2.freq");
    assert_eq!(writes[0].format, MsFormat::Norm);
}

#[test]
fn eq_update_type_converts_normalized_to_index_and_writes_raw() {
    let mut track = default_track(&input_slot());
    let mut writes = Vec::new();
    handle_midi_eq_update(&wrapped("eq1Type", flt(1.0)), &input_slot(), &mut track, &mut writes, type_index);
    assert!(same(field(&track.dsp_fields, "eq1Type"), &jint(5)));
    assert!(write_is(&writes[0], "ch.0.peq.bands.0.type", &jint(5), MsFormat::Val));
}

#[test]
fn comp_update_absent_fields_is_a_no_op() {
    let mut track = default_track(&input_slot());
    let mut writes = Vec::new();
    let bare = handle_midi_comp_update(&obj(vec![]), &input_slot(), &mut track, &mut writes);
    assert!(bare.is_empty());
}

#[test]
fn comp_update_on_writes_dyn_on() {
    let mut track = default_track(&input_slot());
    let mut writes = Vec::new();
    let bare = handle_midi_comp_update(&wrapped("compOn", JsonValue::Bool(true)), &input_slot(), &mut track, &mut writes);
    assert!(bare_is(&bare, "compOn", &JsonValue::Bool(true)));
    assert!(write_is(&writes[0], "ch.0.dyn.on", &jint(1), MsFormat::Val));
}

#[test]
fn comp_update_ratio_maps_to_dyn_ratio() {
    let mut track = default_track(&input_slot());
    let mut writes = Vec::new();
    handle_midi_comp_update(&wrapped("compRatio", flt(0.5)), &input_slot(), &mut track, &mut writes);
    assert_eq!(writes[0].path, "ch.0.dyn.ratio");
    assert_eq!(writes[0].format, MsFormat::Norm);
}

#[test]
fn comp_update_wetdry_maps_to_dyn_mix() {
    let mut track = default_track(&input_slot());
    let mut writes = Vec::new();
    handle_midi_comp_update(&wrapped("compWetdry", flt(0.3)), &input_slot(), &mut track, &mut writes);
    assert_eq!(writes[0].path, "ch.0.dyn.mix");
}

#[test]
fn filter_update_is_a_no_op_for_empty_slot() {
    let empty_slot = LayoutSlot { object_id: 5, kind: LayoutSlotKind::Empty, ms_channels: vec![], ms_primary: None, pan_locked: false };
    let mut track = default_track(&input_slot());
    let mut writes = Vec::new();
    let bare =
        handle_midi_filter_update(&wrapped("filterLcOn", JsonValue::Bool(true)), &empty_slot, &mut track, &mut writes, gain_db);
    assert!(bare.is_empty());
    assert!(writes.is_empty());
}

#[test]
fn filter_update_is_accepted_for_bus_slot() {
    let mut track = default_track(&bus_slot());
    let mut writes = Vec::new();
    let bare =
        handle_midi_filter_update(&wrapped("filterLcOn", JsonValue::Bool(true)), &bus_slot(), &mut track, &mut writes, gain_db);
    assert!(bare_is(&bare, "filterLcOn", &JsonValue::Bool(true)));
    assert_eq!(writes[0].path, "ch.50.preamp.filter.0.on");
}

#[test]
fn clamp01_keeps_unit_range_and_clamps_the_rest() {
    assert_eq!(clamp01(0.25f64.to_bits()), 0.25f64.to_bits());
    assert_eq!(clamp01(1.5f64.to_bits()), 1.0f64.to_bits());
    assert_eq!(clamp01((-0.5f64).to_bits()), 0);
    assert_eq!(clamp01(f64::NAN.to_bits()), 0);
    assert_eq!(clamp01(f64::INFINITY.to_bits()), 0);
    assert_eq!(clamp01(1.0f64.to_bits()), 1.0f64.to_bits());
}

#[test]
fn comp_update_writes_fields_in_table_order() {
    let mut track = default_track(&input_slot());
    let mut writes = Vec::new();
    let parsed = obj(vec![
        ("compWetdry", obj(vec![("value", flt(0.3))])),
        ("compOn", obj(vec![("value", JsonValue::Bool(false))])),
        ("compRatio", obj(vec![("value", flt(-2.0))])),
    ]);
    let bare = handle_midi_comp_update(&parsed, &input_slot(), &mut track, &mut writes);
    let paths: Vec<&str> = writes.iter().map(|w| w.path.as_str()).collect();
    assert_eq!(paths, vec!["ch.0.dyn.on", "ch.0.dyn.ratio", "ch.0.dyn.mix"]);
    assert!(json_equal(&writes[1].value, &flt(0.0)));
    assert_eq!(bare.len(), 3);
}
