use c1_bridge::json::{i64_number, json_equal, JsonNumber, JsonValue, NumberKind};
use c1_bridge::lifecycle::Lifecycle;
use c1_bridge::ms_param_apply::{
    apply_ms_param_to_track, apply_ms_param_to_track_with_send_mapping, route_param_path, MsValueFormat, ParamRoute,
};
use c1_bridge::send_mapping::build_send_mapping;
use c1_bridge::track_cache::{create_default_track_for_slot, default_name_for_slot, DefaultTrackColors, TrackInfo};
use c1_bridge::track_layout::{LayoutSlot, LayoutSlotKind};

fn s(x: &str) -> JsonValue {
    JsonValue::Str(x.to_string())
}
fn jint(n: i64) -> JsonValue {
    JsonValue::Number(i64_number(n))
}
fn flt(x: f64) -> JsonValue {
    JsonValue::Number(JsonNumber { kind: NumberKind::Float, f64_bits: x.to_bits() })
}
fn field<'a>(pairs: &'a [(String, JsonValue)], key: &str) -> Option<&'a JsonValue> {
    pairs.iter().find(|(k, _)| k == key).map(|(_, v)| v)
}
fn real_value(track: &TrackInfo, key: &str) -> Option<f64> {
    track.dsp_real_value_bits.iter().find(|(k, _)| k == key).map(|(_, b)| f64::from_bits(*b))
}
fn assert_json(a: Option<&JsonValue>, b: &JsonValue) {
    assert!(json_equal(a.expect("value present"), b));
}
fn unity_gain_bits() -> u64 {
    ((0.0f64 - -12.0) / (60.0 - -12.0)).clamp(0.0, 1.0).to_bits()
}

fn input_slot() -> LayoutSlot {
    LayoutSlot { object_id: 10, kind: LayoutSlotKind::Input, ms_channels: vec![0], ms_primary: Some(0), pan_locked: false }
}

fn default_colors() -> DefaultTrackColors {
    DefaultTrackColors {
        bus_color: 0x00a5ff,
        main_color: 0x00a5ff,
        status_off_color: 0x333333,
        status_on_color: 0x00ff00,
        start_color: 0x00a5ff,
        stop_color: 0x999999,
    }
}

fn default_track() -> TrackInfo {
    create_default_track_for_slot(&input_slot(), "trk-1".to_string(), Lifecycle::Running, &default_colors(), 48)
}

fn apply(track: &mut TrackInfo, path: &str, value: &JsonValue, format: Option<MsValueFormat>) -> c1_bridge::ms_param_apply::MsParamApplyResult {
    apply_ms_param_to_track(track, &input_slot(), 48, path, value, format, unity_gain_bits())
}

#[test]
fn cfg_name_applies_directly_when_non_empty() {
    let mut track = default_track();
    let result = apply(&mut track, "cfg.name", &s("Vocal"), None);
    assert_eq!(track.name, "Vocal");
    assert_json(field(&result.changed, "name"), &s("Vocal"));
}

#[test]
fn cfg_name_falls_back_to_default_when_empty_or_whitespace() {
    let mut track = default_track();
    track.name = "Custom Name".to_string();
    let default_name = default_name_for_slot(&input_slot(), 48);
    let result = apply(&mut track, "cfg.name", &s("   "), None);
    assert_eq!(track.name, default_name);
    assert_json(field(&result.changed, "name"), &s(&default_name));
}

#[test]
fn mix_lvl_negative_infinity_db_maps_to_json_negative_infinity_string() {
    let mut track = default_track();
    let result = apply(&mut track, "mix.lvl", &flt(-90.5), None);
    assert!(json_equal(&track.volume, &s("-Infinity")));
    assert_json(field(&result.changed, "volume"), &s("-Infinity"));
}

#[test]
fn mix_on_inverts_into_mute() {
    let mut track = default_track();
    let result = apply(&mut track, "mix.on", &JsonValue::Bool(false), None);
    assert!(track.mute);
    assert_json(field(&result.changed, "mute"), &JsonValue::Bool(true));
}

#[test]
fn preamp_filter_freq_val_format_goes_to_real_value_only() {
    let mut track = default_track();
    let result = apply(&mut track, "preamp.filter.0.freq", &flt(120.0), Some(MsValueFormat::Val));
    assert_eq!(real_value(&track, "filterLcFreq"), Some(120.0));
    assert!(result.changed.is_empty());
    assert!(result.bare_field_updates.is_empty());
}

#[test]
fn preamp_filter_freq_norm_format_goes_to_cache_and_bare_update() {
    let mut track = default_track();
    let result = apply(&mut track, "preamp.filter.0.freq", &flt(0.4), Some(MsValueFormat::Norm));
    assert_json(field(&track.dsp_fields, "filterLcFreq"), &flt(0.4));
    assert!(result.changed.is_empty());
    assert_eq!(result.bare_field_updates.len(), 1);
    assert_eq!(result.bare_field_updates[0].0, "filterLcFreq");
    assert!(json_equal(&result.bare_field_updates[0].1, &flt(0.4)));
}

#[test]
fn headamp_gain_writes_both_real_value_and_derived_normalized_cache() {
    let mut track = default_track();
    let result = apply(&mut track, "headamp.gain", &flt(0.0), None);
    assert_eq!(real_value(&track, "filterPreGain"), Some(0.0));
    let expected_norm = flt(f64::from_bits(unity_gain_bits()));
    assert_json(field(&track.dsp_fields, "filterPreGain"), &expected_norm);
    assert_eq!(result.bare_field_updates.len(), 1);
    assert_eq!(result.bare_field_updates[0].0, "filterPreGain");
    assert!(json_equal(&result.bare_field_updates[0].1, &expected_norm));
}

#[test]
fn peq_on_fans_out_to_all_four_eq_band_on_fields() {
    let mut track = default_track();
    let result = apply(&mut track, "peq.on", &JsonValue::Bool(true), None);
    for n in 1..=4 {
        assert_json(field(&track.dsp_fields, &format!("eq{n}On")), &JsonValue::Bool(true));
    }
    assert_eq!(result.bare_field_updates.len(), 4);
}

#[test]
fn send_lvl_maps_ms_send_index_to_c1_slot_via_send_mapping() {
    let mapping = build_send_mapping(&[], 16);
    let mut track = default_track();
    let result = apply_ms_param_to_track_with_send_mapping(
        &mut track, &input_slot(), 48, "mix.sends.2.lvl", &flt(-4.0), None, &mapping, unity_gain_bits(),
    );
    assert!(json_equal(&track.send_levels[2], &flt(-4.0)));
    assert_json(field(&result.changed, "send3"), &flt(-4.0));
}

#[test]
fn send_on_maps_to_boolean_send_on_field() {
    let mapping = build_send_mapping(&[], 16);
    let mut track = default_track();
    let result = apply_ms_param_to_track_with_send_mapping(
        &mut track, &input_slot(), 48, "mix.sends.0.on", &JsonValue::Bool(true), None, &mapping, unity_gain_bits(),
    );
    assert!(track.send_on[0]);
    assert_json(field(&result.changed, "send1On"), &JsonValue::Bool(true));
}

#[test]
fn peq_band_freq_norm_goes_to_cache_val_goes_to_real_value() {
    let mut track = default_track();
    apply(&mut track, "peq.bands.0.freq", &flt(0.6), Some(MsValueFormat::Norm));
    assert_json(field(&track.dsp_fields, "eq1Freq"), &flt(0.6));
    apply(&mut track, "peq.bands.0.freq", &flt(1000.0), Some(MsValueFormat::Val));
    assert_eq!(real_value(&track, "eq1Freq"), Some(1000.0));
}

#[test]
fn peq_band_type_always_goes_to_cache_regardless_of_format() {
    let mut track = default_track();
    let result = apply(&mut track, "peq.bands.1.type", &flt(3.0), Some(MsValueFormat::Val));
    assert_json(field(&track.dsp_fields, "eq2Type"), &flt(3.0));
    assert_eq!(result.bare_field_updates.len(), 1);
    assert_eq!(result.bare_field_updates[0].0, "eq2Type");
    assert!(json_equal(&result.bare_field_updates[0].1, &flt(3.0)));
}

#[test]
fn dyn_on_goes_to_cache_only() {
    let mut track = default_track();
    let result = apply(&mut track, "dyn.on", &JsonValue::Bool(true), None);
    assert_json(field(&track.dsp_fields, "compOn"), &JsonValue::Bool(true));
    assert_eq!(result.bare_field_updates.len(), 1);
    assert_eq!(result.bare_field_updates[0].0, "compOn");
    assert!(json_equal(&result.bare_field_updates[0].1, &JsonValue::Bool(true)));
}

#[test]
fn dyn_mix_never_dual_subscribed_always_syncs_via_cache() {
    let mut track = default_track();
    let result = apply(&mut track, "dyn.mix", &flt(0.3), Some(MsValueFormat::Norm));
    assert_json(field(&track.dsp_fields, "compWetdry"), &flt(0.3));
    assert_eq!(result.bare_field_updates.len(), 1);
    assert_eq!(result.bare_field_updates[0].0, "compWetdry");
}

#[test]
fn dyn_ratio_val_format_goes_to_real_value_only() {
    let mut track = default_track();
    let result = apply(&mut track, "dyn.ratio", &flt(4.0), Some(MsValueFormat::Val));
    assert_eq!(real_value(&track, "compRatio"), Some(4.0));
    assert!(result.bare_field_updates.is_empty());
}

#[test]
fn peq_band_index_at_usize_max_is_a_no_op_and_does_not_overflow() {
    let mut track = default_track();
    let path = format!("peq.bands.{}.freq", usize::MAX);
    assert_eq!(route_param_path(&path), ParamRoute::Ignored);
    let dsp_before = track.dsp_fields.len();
    let result = apply(&mut track, &path, &flt(0.6), Some(MsValueFormat::Norm));
    assert!(result.changed.is_empty());
    assert!(result.bare_field_updates.is_empty());
    assert_eq!(track.dsp_fields.len(), dsp_before);
}

#[test]
fn unrecognized_param_path_is_a_no_op() {
    let mut track = default_track();
    let result = apply(&mut track, "some.unknown.path", &jint(1), None);
    assert!(result.changed.is_empty());
    assert!(result.bare_field_updates.is_empty());
}

#[test]
fn setting_same_value_twice_reports_no_change_the_second_time() {
    let mut track = default_track();
    apply(&mut track, "solo", &JsonValue::Bool(true), None);
    let result = apply(&mut track, "solo", &JsonValue::Bool(true), None);
    assert!(result.changed.is_empty());
}

#[test]
fn send_index_with_plus_sign_parses_like_usize_from_str() {
    assert_eq!(route_param_path("mix.sends.+3.on"), ParamRoute::Send { ms_send_index: 3, level: false });
    assert_eq!(route_param_path("mix.sends.-3.on"), ParamRoute::Ignored);
    assert_eq!(route_param_path("mix.sends.3.pan"), ParamRoute::Ignored);
}

#[test]
fn color_update_reports_the_softube_color_as_an_integer() {
    let mut track = default_track();
    let result = apply(&mut track, "cfg.color", &jint(2), None);
    assert_eq!(track.color, 0x00ff00);
    assert_json(field(&result.changed, "color"), &jint(0x00ff00));
}

#[test]
fn pan_update_sets_the_float_bits_and_reports_them() {
    let mut track = default_track();
    let result = apply(&mut track, "mix.pan", &flt(0.25), None);
    assert_eq!(f64::from_bits(track.pan_bits), 0.25);
    assert_json(field(&result.changed, "pan"), &flt(0.25));
}
