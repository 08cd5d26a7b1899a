use c1_bridge::channel_data_message::MsFormat;
use c1_bridge::json::{copy_json, i64_number, json_equal, JsonNumber, JsonValue, NumberKind};
use c1_bridge::lifecycle::Lifecycle;
use c1_bridge::midi_mixer_dispatch::{
    handle_midi_bus_main_sends_mode_fader_proxy, handle_midi_mute_update, handle_midi_pan_update, handle_midi_selected_update,
    handle_midi_send_slots_update, handle_midi_solo_update, handle_midi_volume_update, MsWrite,
};
use c1_bridge::send_mapping::build_send_mapping;
use c1_bridge::track_cache::{create_default_track_for_slot, DefaultTrackColors, TrackInfo};
use c1_bridge::track_layout::{LayoutSlot, LayoutSlotKind};

fn jint(n: i64) -> JsonValue {
    JsonValue::Number(i64_number(n))
}
fn flt(x: f64) -> JsonValue {
    JsonValue::Number(JsonNumber { kind: NumberKind::Float, f64_bits: x.to_bits() })
}
fn obj(pairs: Vec<(&str, JsonValue)>) -> JsonValue {
    JsonValue::Object(pairs.into_iter().map(|(k, v)| (k.to_string(), v)).collect())
}
fn field<'a>(pairs: &'a [(String, JsonValue)], key: &str) -> Option<&'a JsonValue> {
    pairs.iter().find(|(k, _)| k == key).map(|(_, v)| v)
}
fn same(a: Option<&JsonValue>, b: &JsonValue) -> bool {
    a.map_or(false, |a| json_equal(a, b))
}
/// A number passes through with its `f64` reading as the Mixing Station level; anything
/// else keeps its value and has no level.
fn level(v: &JsonValue) -> (JsonValue, Option<u64>) {
    match v {
        JsonValue::Number(n) => (JsonValue::Number(*n), Some(n.f64_bits)),
        other => (copy_json(other), None),
    }
}
fn write_is(w: &MsWrite, path: &str, value: &JsonValue, format: MsFormat) -> bool {
    w.path == path && json_equal(&w.value, value) && w.format == format
}

fn input_slot() -> LayoutSlot {
    LayoutSlot { object_id: 10, kind: LayoutSlotKind::Input, ms_channels: vec![0], ms_primary: Some(0), pan_locked: false }
}
fn stereo_input_slot() -> LayoutSlot {
    LayoutSlot { object_id: 10, kind: LayoutSlotKind::Input, ms_channels: vec![0, 1], ms_primary: Some(0), pan_locked: true }
}
fn bus_slot() -> LayoutSlot {
    LayoutSlot { object_id: 20, kind: LayoutSlotKind::Bus, ms_channels: vec![50], ms_primary: Some(50), pan_locked: false }
}
fn default_colors() -> DefaultTrackColors {
    DefaultTrackColors {
        bus_color: 0x00a5ff,
        main_color: 0x00a5ff,
        status_off_color: 0x333333,
        status_on_color: 0x00ff00,
        start_color: 0x00a5ff,
        stop_color: 0x999999,
    }
}
fn default_track(slot: &LayoutSlot) -> TrackInfo {
    create_default_track_for_slot(slot, "trk-1".to_string(), Lifecycle::Running, &default_colors(), 48)
}

#[test]
fn volume_update_sets_track_and_writes_mix_lvl() {
    let mut track = default_track(&input_slot());
    let mut writes = Vec::new();
    let changed =
        handle_midi_volume_update(&obj(vec![("volume", flt(-6.0))]), &input_slot(), &mut track, None, &mut writes, level);
    assert!(json_equal(&track.volume, &flt(-6.0)));
    assert!(same(field(&changed, "volume"), &flt(-6.0)));
    assert_eq!(writes.len(), 1);
    assert!(write_is(&writes[0], "ch.0.mix.lvl", &flt(-6.0), MsFormat::Val));
}

#[test]
fn volume_update_absent_field_is_a_no_op() {
    let mut track = default_track(&input_slot());
    let mut writes = Vec::new();
    let changed = handle_midi_volume_update(&obj(vec![]), &input_slot(), &mut track, None, &mut writes, level);
    assert!(changed.is_empty());
    assert!(writes.is_empty());
}

#[test]
fn volume_update_stereo_pair_writes_both_channels() {
    let mut track = default_track(&stereo_input_slot());
    let mut writes = Vec::new();
    handle_midi_volume_update(&obj(vec![("volume", flt(-3.0))]), &stereo_input_slot(), &mut track, None, &mut writes, level);
    assert_eq!(writes.len(), 2);
    assert_eq!(writes[0].path, "ch.0.mix.lvl");
    assert_eq!(writes[1].path, "ch.1.mix.lvl");
}

#[test]
fn volume_update_bus_main_in_sends_mode_mirrors_send_slots() {
    let mut track = default_track(&bus_slot());
    let mut writes = Vec::new();
    let changed =
        handle_midi_volume_update(&obj(vec![("volume", flt(-6.0))]), &bus_slot(), &mut track, Some(2), &mut writes, level);
    assert!(json_equal(&track.volume, &flt(-6.0)));
    for i in 1..=6 {
        assert!(track.send_on[i - 1]);
        assert!(json_equal(&track.send_levels[i - 1], &flt(-6.0)));
    }
    assert!(same(field(&changed, "volume"), &flt(-6.0)));
    assert!(same(field(&changed, "send3"), &flt(-6.0)));
    assert_eq!(writes.len(), 1);
}

#[test]
fn volume_update_without_a_level_sets_volume_but_writes_nothing() {
    let mut track = default_track(&input_slot());
    let mut writes = Vec::new();
    let raw = JsonValue::Str("loud".to_string());
    handle_midi_volume_update(&obj(vec![("volume", copy_json(&raw))]), &input_slot(), &mut track, None, &mut writes, level);
    assert!(json_equal(&track.volume, &raw));
    assert!(writes.is_empty());
}

#[test]
fn bus_main_sends_mode_fader_proxy_no_op_when_not_sends_mode() {
    let mut track = default_track(&bus_slot());
    let mut writes = Vec::new();
    let changed = handle_midi_bus_main_sends_mode_fader_proxy(
        &obj(vec![("send3", flt(-6.0))]),
        &bus_slot(),
        &mut track,
        None,
        &mut writes,
        level,
    );
    assert!(changed.is_empty());
    assert!(writes.is_empty());
}

#[test]
fn bus_main_sends_mode_fader_proxy_no_op_for_input_slot() {
    let mut track = default_track(&input_slot());
    let mut writes = Vec::new();
    let changed = handle_midi_bus_main_sends_mode_fader_proxy(
        &obj(vec![("send3", flt(-6.0))]),
        &input_slot(),
        &mut track,
        Some(2),
        &mut writes,
        level,
    );
    assert!(changed.is_empty());
    assert!(writes.is_empty());
}

#[test]
fn bus_main_sends_mode_fader_proxy_reacts_to_a_send_level_key() {
    let mut track = default_track(&bus_slot());
    let mut writes = Vec::new();
    let changed = handle_midi_bus_main_sends_mode_fader_proxy(
        &obj(vec![("send3", flt(-6.0))]),
        &bus_slot(),
        &mut track,
        Some(2),
        &mut writes,
        level,
    );
    assert!(json_equal(&track.volume, &flt(-6.0)));
    assert!(same(field(&changed, "volume"), &flt(-6.0)));
    assert_eq!(writes.len(), 1);
    assert_eq!(writes[0].path, "ch.50.mix.lvl");
}

#[test]
fn bus_main_sends_mode_fader_proxy_reacts_to_an_on_key_with_no_level_write() {
    let mut track = default_track(&bus_slot());
    let mut writes = Vec::new();
    let changed = handle_midi_bus_main_sends_mode_fader_proxy(
        &obj(vec![("send3On", JsonValue::Bool(true))]),
        &bus_slot(),
        &mut track,
        Some(2),
        &mut writes,
        level,
    );
    assert!(field(&changed, "volume").is_some());
    assert!(writes.is_empty());
}

#[test]
fn mute_update_absent_field_is_a_no_op() {
    let mut track = default_track(&input_slot());
    let mut writes = Vec::new();
    let mapping = build_send_mapping(&[], 16);
    let changed = handle_midi_mute_update(&obj(vec![]), &input_slot(), &mut track, None, &mapping, &mut writes);
    assert!(changed.is_empty());
    assert!(writes.is_empty());
}

#[test]
fn mute_update_bus_toggles_and_writes_mix_on() {
    let mut track = default_track(&bus_slot());
    let mut writes = Vec::new();
    let mapping = build_send_mapping(&[], 16);
    let changed =
        handle_midi_mute_update(&obj(vec![("mute", JsonValue::Bool(true))]), &bus_slot(), &mut track, None, &mapping, &mut writes);
    assert!(track.mute);
    assert!(same(field(&changed, "mute"), &JsonValue::Bool(true)));
    assert!(write_is(&writes[0], "ch.50.mix.on", &jint(0), MsFormat::Val));
}

#[test]
fn mute_update_bus_momentary_toggle_when_same_as_current() {
    let mut track = default_track(&bus_slot());
    track.mute = false;
    let mut writes = Vec::new();
    let mapping = build_send_mapping(&[], 16);
    let changed =
        handle_midi_mute_update(&obj(vec![("mute", JsonValue::Bool(false))]), &bus_slot(), &mut track, None, &mapping, &mut writes);
    assert!(track.mute);
    assert!(same(field(&changed, "mute"), &JsonValue::Bool(true)));
}

#[test]
fn mute_update_input_standard_mode_writes_mix_on() {
    let mut track = default_track(&input_slot());
    let mut writes = Vec::new();
    let mapping = build_send_mapping(&[], 16);
    handle_midi_mute_update(&obj(vec![("mute", JsonValue::Bool(true))]), &input_slot(), &mut track, None, &mapping, &mut writes);
    assert!(track.mute);
    assert!(write_is(&writes[0], "ch.0.mix.on", &jint(0), MsFormat::Val));
}

#[test]
fn mute_update_input_sends_mode_toggles_send_on_and_mirrors_mute_led() {
    let mut track = default_track(&input_slot());
    track.send_on[2] = true;
    let mut writes = Vec::new();
    let mapping = build_send_mapping(&[], 16);
    let changed =
        handle_midi_mute_update(&obj(vec![("mute", JsonValue::Bool(true))]), &input_slot(), &mut track, Some(2), &mapping, &mut writes);
    assert!(!track.send_on[2]);
    assert!(track.mute);
    assert!(same(field(&changed, "send3On"), &JsonValue::Bool(false)));
    assert!(same(field(&changed, "mute"), &JsonValue::Bool(true)));
    assert!(write_is(&writes[0], "ch.0.mix.sends.2.on", &jint(0), MsFormat::Val));
}

#[test]
fn mute_update_input_sends_mode_unmapped_send_writes_ms_but_reflects_nothing() {
    let mut track = default_track(&input_slot());
    let mut writes = Vec::new();
    let mapping = build_send_mapping(&[1, 2, 3, 4, 5, 6], 16);
    assert!(!mapping.ms_send_index_to_c1_slot.contains_key(&10));
    let changed =
        handle_midi_mute_update(&obj(vec![("mute", JsonValue::Bool(true))]), &input_slot(), &mut track, Some(10), &mapping, &mut writes);
    assert_eq!(writes.len(), 1);
    assert!(write_is(&writes[0], "ch.0.mix.sends.10.on", &jint(0), MsFormat::Val));
    assert!(changed.is_empty());
    assert!(!track.mute);
    assert_eq!(track.send_on, vec![false; 6]);
}

#[test]
fn solo_update_absent_field_is_a_no_op() {
    let mut track = default_track(&input_slot());
    let mut writes = Vec::new();
    let changed = handle_midi_solo_update(&obj(vec![]), &input_slot(), &mut track, &mut writes);
    assert!(changed.is_empty());
}

#[test]
fn solo_update_bus_slot_is_a_no_op() {
    let mut track = default_track(&bus_slot());
    let mut writes = Vec::new();
    let changed = handle_midi_solo_update(&obj(vec![("solo", JsonValue::Bool(true))]), &bus_slot(), &mut track, &mut writes);
    assert!(changed.is_empty());
    assert!(writes.is_empty());
}

#[test]
fn solo_update_input_toggles_and_writes() {
    let mut track = default_track(&input_slot());
    let mut writes = Vec::new();
    let changed = handle_midi_solo_update(&obj(vec![("solo", JsonValue::Bool(true))]), &input_slot(), &mut track, &mut writes);
    assert!(track.solo);
    assert!(same(field(&changed, "solo"), &JsonValue::Bool(true)));
    assert!(write_is(&writes[0], "ch.0.solo", &jint(1), MsFormat::Val));
}

#[test]
fn selected_update_writes_selected_field() {
    let mut writes = Vec::new();
    let latch = handle_midi_selected_update(&obj(vec![("selected", JsonValue::Bool(false))]), &input_slot(), 0, 48, &mut writes);
    assert!(write_is(&writes[0], "ch.0.selected", &jint(0), MsFormat::Val));
    assert_eq!(latch, None);
}

#[test]
fn selected_update_selecting_bus_latches_sends_mode() {
    let mut writes = Vec::new();
    let latch = handle_midi_selected_update(&obj(vec![("selected", JsonValue::Bool(true))]), &bus_slot(), 50, 48, &mut writes);
    assert!(json_equal(&writes[0].value, &jint(1)));
    assert_eq!(latch, Some(Some(2)));
}

#[test]
fn selected_update_selecting_main_clears_sends_mode() {
    let main_slot =
        LayoutSlot { object_id: 69, kind: LayoutSlotKind::Main, ms_channels: vec![70, 71], ms_primary: Some(70), pan_locked: true };
    let mut writes = Vec::new();
    let latch = handle_midi_selected_update(&obj(vec![("selected", JsonValue::Bool(true))]), &main_slot, 70, 48, &mut writes);
    assert_eq!(latch, Some(None));
}

#[test]
fn send_slots_update_non_input_is_a_no_op() {
    let mut track = default_track(&bus_slot());
    let mut writes = Vec::new();
    let mapping = build_send_mapping(&[], 16);
    let changed =
        handle_midi_send_slots_update(&obj(vec![("send1", flt(-6.0))]), &bus_slot(), &mut track, &mapping, &mut writes, level);
    assert!(changed.is_empty());
    assert!(writes.is_empty());
}

#[test]
fn send_slots_update_level_key_updates_cache_and_writes() {
    let mut track = default_track(&input_slot());
    let mut writes = Vec::new();
    let mapping = build_send_mapping(&[], 16);
    let changed =
        handle_midi_send_slots_update(&obj(vec![("send3", flt(-6.0))]), &input_slot(), &mut track, &mapping, &mut writes, level);
    assert!(json_equal(&track.send_levels[2], &flt(-6.0)));
    assert!(same(field(&changed, "send3"), &flt(-6.0)));
    assert_eq!(writes.len(), 1);
    assert_eq!(writes[0].path, "ch.0.mix.sends.2.lvl");
}

#[test]
fn send_slots_update_on_key_writes_but_does_not_update_cache_or_changed() {
    let mut track = default_track(&input_slot());
    let mut writes = Vec::new();
    let mapping = build_send_mapping(&[], 16);
    let changed = handle_midi_send_slots_update(
        &obj(vec![("send3On", JsonValue::Bool(true))]),
        &input_slot(),
        &mut track,
        &mapping,
        &mut writes,
        level,
    );
    assert!(changed.is_empty());
    assert_eq!(writes.len(), 1);
    assert!(write_is(&writes[0], "ch.0.mix.sends.2.on", &jint(1), MsFormat::Val));
}

#[test]
fn send_slots_update_uses_the_configured_bus_mapping() {
    let mut track = default_track(&stereo_input_slot());
    let mut writes = Vec::new();
    let mapping = build_send_mapping(&[1, 2, 9, 4, 5, 6], 16);
    handle_midi_send_slots_update(&obj(vec![("send3", flt(-1.5))]), &stereo_input_slot(), &mut track, &mapping, &mut writes, level);
    assert_eq!(writes.len(), 2);
    assert!(write_is(&writes[0], "ch.0.mix.sends.8.lvl", &flt(-1.5), MsFormat::Val));
    assert!(write_is(&writes[1], "ch.1.mix.sends.8.lvl", &flt(-1.5), MsFormat::Val));
}

/// The hybrid stereo pan's dual-mono split, narrow zone 0.25.
fn dual_mono(bits: u64) -> (u64, u64) {
    let p = f64::from_bits(bits).clamp(0.0, 1.0);
    let x = (p - 0.5) * 2.0;
    let ax = x.abs();
    let t = 0.25;
    if ax <= t {
        let half = 0.5 * (1.0 - ax / t);
        ((0.5 - half).clamp(0.0, 1.0).to_bits(), (0.5 + half).clamp(0.0, 1.0).to_bits())
    } else {
        let mid = (0.5 + 0.5 * x.signum() * ((ax - t) / (1.0 - t))).clamp(0.0, 1.0);
        (mid.to_bits(), mid.to_bits())
    }
}

#[test]
fn pan_update_absent_field_is_a_no_op() {
    let mut track = default_track(&input_slot());
    let mut writes = Vec::new();
    let changed = handle_midi_pan_update(&obj(vec![]), &input_slot(), &mut track, 0, None, &mut writes, dual_mono);
    assert!(changed.is_empty());
    assert!(writes.is_empty());
}

#[test]
fn pan_update_mono_input_standard_mode_writes_single_channel_norm() {
    let mut track = default_track(&input_slot());
    let mut writes = Vec::new();
    let changed = handle_midi_pan_update(&obj(vec![("pan", flt(0.75))]), &input_slot(), &mut track, 0, None, &mut writes, dual_mono);
    assert_eq!(track.pan_bits, 0.5f64.to_bits());
    assert!(changed.is_empty());
    assert_eq!(writes.len(), 1);
    assert!(write_is(&writes[0], "ch.0.mix.pan", &flt(0.75), MsFormat::Norm));
}

#[test]
fn pan_update_stereo_pair_writes_dual_mono() {
    let mut track = default_track(&stereo_input_slot());
    let mut writes = Vec::new();
    let changed =
        handle_midi_pan_update(&obj(vec![("pan", flt(0.5))]), &stereo_input_slot(), &mut track, 0, None, &mut writes, dual_mono);
    assert_eq!(writes.len(), 2);
    assert!(write_is(&writes[0], "ch.0.mix.pan", &flt(0.0), MsFormat::Norm));
    assert!(write_is(&writes[1], "ch.1.mix.pan", &flt(1.0), MsFormat::Norm));
    assert!(same(field(&changed, "pan"), &flt(0.5)));
    assert_eq!(track.pan_bits, 0.5f64.to_bits());
}

#[test]
fn pan_update_input_sends_mode_writes_send_pan_instead_of_mix_pan() {
    let mut track = default_track(&input_slot());
    let mut writes = Vec::new();
    let changed =
        handle_midi_pan_update(&obj(vec![("pan", flt(0.75))]), &input_slot(), &mut track, 0, Some(2), &mut writes, dual_mono);
    assert!(write_is(&writes[0], "ch.0.mix.sends.2.pan", &flt(0.75), MsFormat::Norm));
    assert!(same(field(&changed, "pan"), &flt(0.75)));
}

#[test]
fn pan_update_clamps_the_knob_and_centres_a_non_number() {
    let mut track = default_track(&bus_slot());
    let mut writes = Vec::new();
    handle_midi_pan_update(&obj(vec![("pan", flt(3.0))]), &bus_slot(), &mut track, 50, None, &mut writes, dual_mono);
    assert!(write_is(&writes[0], "ch.50.mix.pan", &flt(1.0), MsFormat::Norm));
    handle_midi_pan_update(&obj(vec![("pan", JsonValue::Null)]), &bus_slot(), &mut track, 50, None, &mut writes, dual_mono);
    assert!(write_is(&writes[1], "ch.50.mix.pan", &flt(0.5), MsFormat::Norm));
    assert_eq!(track.pan_bits, 0.5f64.to_bits());
}
