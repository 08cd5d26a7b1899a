use c1_bridge::console_track::ConsoleTrackFields;
use c1_bridge::dsp_field_metadata::DSP_FIELD_NAMES;
use c1_bridge::json::{i64_number, json_equal, JsonNumber, JsonValue, NumberKind};
use c1_bridge::lifecycle::Lifecycle;
use c1_bridge::track_cache::{
    create_default_track_for_slot, default_dsp_fields, default_name_for_slot, DefaultTrackColors, TrackCache,
};
use c1_bridge::track_layout::{LayoutSlot, LayoutSlotKind};
use rand::rngs::StdRng;
use rand::SeedableRng;
use std::collections::HashSet;

fn jint(n: i64) -> JsonValue {
    JsonValue::Number(i64_number(n))
}
fn flt(x: f64) -> JsonValue {
    JsonValue::Number(JsonNumber { kind: NumberKind::Float, f64_bits: x.to_bits() })
}
fn field<'a>(pairs: &'a [(String, JsonValue)], key: &str) -> &'a JsonValue {
    &pairs.iter().find(|(k, _)| k == key).expect("field present").1
}

fn colors() -> DefaultTrackColors {
    DefaultTrackColors {
        bus_color: 0x800080,
        main_color: 0x00a5ff,
        status_off_color: 0x0000ff,
        status_on_color: 0x00ff00,
        start_color: 0xff841b,
        stop_color: 0x5a28f8,
    }
}

fn input_slot(object_id: usize, ms_channels: Vec<usize>) -> LayoutSlot {
    LayoutSlot {
        object_id,
        kind: LayoutSlotKind::Input,
        ms_primary: ms_channels.first().copied(),
        ms_channels,
        pan_locked: false,
    }
}

#[test]
fn default_name_mono_input_slot() {
    let slot = input_slot(10, vec![0]);
    assert_eq!(default_name_for_slot(&slot, 48), "Ch 1");
}

#[test]
fn default_name_stereo_input_slot() {
    let slot = input_slot(10, vec![4, 5]);
    assert_eq!(default_name_for_slot(&slot, 48), "Ch 5+6");
}

#[test]
fn default_name_mono_bus_slot_uses_bus_channel_start_offset() {
    let slot = LayoutSlot {
        object_id: 20,
        kind: LayoutSlotKind::Bus,
        ms_channels: vec![48],
        ms_primary: Some(48),
        pan_locked: false,
    };
    assert_eq!(default_name_for_slot(&slot, 48), "Bus 1");
}

#[test]
fn default_name_stereo_bus_slot() {
    let slot = LayoutSlot {
        object_id: 20,
        kind: LayoutSlotKind::Bus,
        ms_channels: vec![48, 49],
        ms_primary: Some(48),
        pan_locked: true,
    };
    assert_eq!(default_name_for_slot(&slot, 48), "Bus 1+2");
}

#[test]
fn default_name_main_slot_is_literally_main() {
    let slot = LayoutSlot {
        object_id: 29,
        kind: LayoutSlotKind::Main,
        ms_channels: vec![70, 71],
        ms_primary: Some(70),
        pan_locked: false,
    };
    assert_eq!(default_name_for_slot(&slot, 48), "Main");
}

#[test]
fn default_name_empty_slot_is_blank() {
    let slot = LayoutSlot {
        object_id: 15,
        kind: LayoutSlotKind::Empty,
        ms_channels: vec![],
        ms_primary: None,
        pan_locked: false,
    };
    assert_eq!(default_name_for_slot(&slot, 48), "");
}

#[test]
fn create_default_track_input_slot_active_default_color() {
    let slot = input_slot(10, vec![0]);
    let track = create_default_track_for_slot(&slot, "ABCD1234".into(), Lifecycle::Standby, &colors(), 48);
    assert!(track.is_active);
    assert_eq!(track.color, 6842214);
    assert_eq!(track.name, "Ch 1");
    assert_eq!(track.track, 11);
    assert_eq!(track.track_id, "ABCD1234");
    assert_eq!(f64::from_bits(track.pan_bits), 0.5);
    assert_eq!(f64::from_bits(track.max_volume_value_bits), 10.0);
    assert!(track.send_on.iter().all(|&on| !on));
}

#[test]
fn create_default_track_empty_slot_is_inactive() {
    let slot = LayoutSlot { object_id: 15, kind: LayoutSlotKind::Empty, ms_channels: vec![], ms_primary: None, pan_locked: false };
    let track = create_default_track_for_slot(&slot, "X".into(), Lifecycle::Standby, &colors(), 48);
    assert!(!track.is_active);
}

#[test]
fn create_default_track_bus_slot_uses_bus_color() {
    let slot = LayoutSlot { object_id: 20, kind: LayoutSlotKind::Bus, ms_channels: vec![48], ms_primary: Some(48), pan_locked: false };
    let c = colors();
    let track = create_default_track_for_slot(&slot, "X".into(), Lifecycle::Standby, &c, 48);
    assert_eq!(track.color, c.bus_color);
}

#[test]
fn create_default_track_main_slot_uses_main_color() {
    let slot = LayoutSlot { object_id: 29, kind: LayoutSlotKind::Main, ms_channels: vec![70, 71], ms_primary: Some(70), pan_locked: false };
    let c = colors();
    let track = create_default_track_for_slot(&slot, "X".into(), Lifecycle::Standby, &c, 48);
    assert_eq!(track.color, c.main_color);
}

#[test]
fn create_default_track_dsp_fields_have_correct_defaults() {
    let slot = input_slot(10, vec![0]);
    let track = create_default_track_for_slot(&slot, "X".into(), Lifecycle::Standby, &colors(), 48);
    assert!(json_equal(field(&track.dsp_fields, "filterLcOn"), &JsonValue::Bool(false)));
    assert!(json_equal(field(&track.dsp_fields, "filterLcFreq"), &jint(0)));
    assert!(json_equal(field(&track.dsp_fields, "filterPreGain"), &flt((0.0f64 - -12.0) / (60.0 - -12.0))));
    assert!(json_equal(field(&track.dsp_fields, "eq1Freq"), &flt(0.5)));
    assert!(json_equal(field(&track.dsp_fields, "eq4Type"), &jint(0)));
    assert!(json_equal(field(&track.dsp_fields, "compKnee"), &jint(0)));
    assert!(track.dsp_real_value_bits.is_empty());
}

#[test]
fn default_dsp_fields_key_set_matches_dsp_field_metadata_names() {
    let defaults = default_dsp_fields();
    let default_keys: HashSet<&str> = defaults.iter().map(|(k, _)| k.as_str()).collect();
    let known_names: HashSet<&str> = DSP_FIELD_NAMES.iter().copied().collect();
    assert_eq!(default_keys, known_names);
}

#[test]
fn cache_get_or_create_is_idempotent_and_generates_a_track_id() {
    let mut rng = StdRng::seed_from_u64(10);
    let mut cache = TrackCache::new();
    let slot = input_slot(10, vec![0]);
    let c = colors();
    let first = cache.get_or_create(10, &slot, Lifecycle::Standby, &c, 48, &mut rng).track_id.clone();
    let second = cache.get_or_create(10, &slot, Lifecycle::Standby, &c, 48, &mut rng).track_id.clone();
    assert_eq!(first, second);
    assert_eq!(first.len(), 8);
}

#[test]
fn cache_object_id_for_track_id_resolves_after_creation() {
    let mut rng = StdRng::seed_from_u64(11);
    let mut cache = TrackCache::new();
    let slot = input_slot(10, vec![0]);
    let c = colors();
    let track_id = cache.get_or_create(10, &slot, Lifecycle::Standby, &c, 48, &mut rng).track_id.clone();
    assert_eq!(cache.object_id_for_track_id(&track_id), Some(10));
}

#[test]
fn cache_clear_drops_all_cached_tracks() {
    let mut rng = StdRng::seed_from_u64(12);
    let mut cache = TrackCache::new();
    let c = colors();
    let slot_a = input_slot(0, vec![0]);
    let slot_b = input_slot(10, vec![10]);
    cache.get_or_create(0, &slot_a, Lifecycle::Standby, &c, 48, &mut rng);
    cache.get_or_create(10, &slot_b, Lifecycle::Standby, &c, 48, &mut rng);
    cache.clear();
    assert!(cache.get(0).is_none());
    assert!(cache.get(10).is_none());
}

#[test]
fn cache_take_and_put_round_trip_a_track() {
    let mut rng = StdRng::seed_from_u64(13);
    let mut cache = TrackCache::new();
    let c = colors();
    let slot = input_slot(3, vec![3]);
    cache.get_or_create(3, &slot, Lifecycle::Standby, &c, 48, &mut rng);
    let mut track = cache.take(3).expect("cached");
    assert!(cache.get(3).is_none());
    track.mute = true;
    cache.put(3, track);
    assert!(cache.get(3).unwrap().mute);
    assert!(cache.take(99).is_none());
}

#[test]
fn console_track_fields_from_track_info_maps_every_field_and_drops_dsp_state() {
    let slot = LayoutSlot { object_id: 10, kind: LayoutSlotKind::Input, ms_channels: vec![0], ms_primary: Some(0), pan_locked: false };
    let mut track = create_default_track_for_slot(&slot, "ABCD1234".into(), Lifecycle::Standby, &colors(), 48);
    track.mute = true;
    track.pan_bits = 0.25f64.to_bits();
    track.send_levels[2] = jint(7);
    track.send_on[2] = true;

    let fields = ConsoleTrackFields::from_track(&track);
    assert_eq!(fields.track, track.track);
    assert_eq!(fields.is_active, track.is_active);
    assert_eq!(fields.track_id, track.track_id);
    assert_eq!(fields.color, track.color);
    assert_eq!(fields.name, track.name);
    assert!(json_equal(&fields.volume, &track.volume));
    assert_eq!(fields.meter_bits, track.meter_bits);
    assert_eq!(fields.mute, track.mute);
    assert_eq!(fields.solo, track.solo);
    assert_eq!(fields.selected, track.selected);
    assert_eq!(fields.max_volume_value_bits, track.max_volume_value_bits);
    assert_eq!(fields.max_send_value_bits, track.max_send_value_bits);
    assert_eq!(fields.pan_bits, track.pan_bits);
    assert!(json_equal(&fields.send1, &track.send_levels[0]));
    assert_eq!(fields.send1_on, track.send_on[0]);
    assert!(json_equal(&fields.send3, &jint(7)));
    assert!(fields.send3_on);
    assert!(json_equal(&fields.send6, &track.send_levels[5]));
    assert_eq!(fields.send6_on, track.send_on[5]);
}

#[test]
fn reset_real_channels_keeps_the_status_bank_and_track_ids() {
    let mut cache = TrackCache::new();
    let mut rng = StdRng::seed_from_u64(7);
    let status = LayoutSlot { object_id: 3, kind: LayoutSlotKind::Empty, ms_channels: vec![], ms_primary: None, pan_locked: false };
    let real = LayoutSlot { object_id: 12, kind: LayoutSlotKind::Input, ms_channels: vec![2], ms_primary: Some(2), pan_locked: false };
    let id_status = cache.get_or_create(3, &status, Lifecycle::Running, &colors(), 48, &mut rng).track_id.clone();
    let id_real = cache.get_or_create(12, &real, Lifecycle::Running, &colors(), 48, &mut rng).track_id.clone();
    let mut ids = cache.cached_object_ids();
    ids.sort();
    assert_eq!(ids, vec![3, 12]);
    cache.reset_real_channels(9);
    assert!(cache.get(3).is_some());
    assert!(cache.get(12).is_none());
    assert_eq!(cache.cached_object_ids(), vec![3]);
    assert_eq!(cache.object_id_for_track_id(&id_real), Some(12));
    assert_eq!(cache.get(3).unwrap().track_id, id_status);
}
