use c1_bridge::channel_data_message::MsFormat;
use c1_bridge::config::RuntimeConfig;
use c1_bridge::json::{i64_number, json_equal, JsonNumber, JsonValue, NumberKind};
use c1_bridge::runtime_rules::{apply_slot_overrides, build_echo_key, ms_format_name};
use c1_bridge::track_layout::{LayoutSlot, LayoutSlotKind};

fn jint(n: i64) -> JsonValue {
    JsonValue::Number(i64_number(n))
}
fn flt(x: f64) -> JsonValue {
    JsonValue::Number(JsonNumber { kind: NumberKind::Float, f64_bits: x.to_bits() })
}
fn s(x: &str) -> JsonValue {
    JsonValue::Str(x.to_string())
}
fn slot(kind: LayoutSlotKind, ms_channels: Vec<usize>, pan_locked: bool) -> LayoutSlot {
    LayoutSlot { object_id: 20, kind, ms_primary: ms_channels.first().copied(), ms_channels, pan_locked }
}
fn is(out: Option<JsonValue>, expected: &JsonValue) -> bool {
    out.map_or(false, |v| json_equal(&v, expected))
}

#[test]
fn apply_slot_overrides_forces_main_name() {
    let config = RuntimeConfig::default();
    let out = apply_slot_overrides(&slot(LayoutSlotKind::Main, vec![70, 71], false), "cfg.name", s("LR"), &config);
    assert!(is(out, &s("Main")));
}

#[test]
fn apply_slot_overrides_trims_stereo_suffix_from_paired_input_name() {
    let config = RuntimeConfig::default();
    let out = apply_slot_overrides(&slot(LayoutSlotKind::Input, vec![4, 5], true), "cfg.name", s("Keys L"), &config);
    assert!(is(out, &s("Keys")));
}

#[test]
fn apply_slot_overrides_leaves_mono_input_name_alone() {
    let config = RuntimeConfig::default();
    let out = apply_slot_overrides(&slot(LayoutSlotKind::Input, vec![4], false), "cfg.name", s("Vocal L"), &config);
    assert!(is(out, &s("Vocal L")));
}

#[test]
fn apply_slot_overrides_replaces_bus_and_main_colors_with_configured_ones() {
    let config = RuntimeConfig::default();
    let bus = slot(LayoutSlotKind::Bus, vec![50], false);
    let main = slot(LayoutSlotKind::Main, vec![70, 71], false);
    assert!(is(apply_slot_overrides(&bus, "cfg.color", jint(0x123456), &config), &jint(config.console1_bus_color as i64)));
    assert!(is(apply_slot_overrides(&main, "cfg.color", jint(0x123456), &config), &jint(config.console1_main_color as i64)));
}

#[test]
fn apply_slot_overrides_keeps_input_color_from_mixing_station() {
    let config = RuntimeConfig::default();
    let out = apply_slot_overrides(&slot(LayoutSlotKind::Input, vec![4], false), "cfg.color", jint(0x123456), &config);
    assert!(is(out, &jint(0x123456)));
}

#[test]
fn apply_slot_overrides_ignores_pan_for_stereo_linked_pairs() {
    let config = RuntimeConfig::default();
    let out = apply_slot_overrides(&slot(LayoutSlotKind::Input, vec![4, 5], true), "mix.pan", flt(0.75), &config);
    assert!(out.is_none());
}

#[test]
fn apply_slot_overrides_centers_pan_for_non_stereo_pan_locked_slots() {
    let config = RuntimeConfig::default();
    let out = apply_slot_overrides(&slot(LayoutSlotKind::Main, vec![70], true), "mix.pan", flt(0.75), &config);
    assert!(is(out, &flt(0.5)));
}

#[test]
fn apply_slot_overrides_passes_unlocked_pan_through_untouched() {
    let config = RuntimeConfig::default();
    let out = apply_slot_overrides(&slot(LayoutSlotKind::Input, vec![4], false), "mix.pan", flt(0.75), &config);
    assert!(is(out, &flt(0.75)));
}

#[test]
fn apply_slot_overrides_passes_unrelated_params_through_untouched() {
    let config = RuntimeConfig::default();
    let out = apply_slot_overrides(&slot(LayoutSlotKind::Main, vec![70, 71], false), "mix.lvl", flt(-6.0), &config);
    assert!(is(out, &flt(-6.0)));
}

#[test]
fn echo_key_joins_channel_path_and_format() {
    assert_eq!(build_echo_key(3, "mix.pan", MsFormat::Norm), "ch.3.mix.pan|norm");
    assert_eq!(build_echo_key(0, "mix.lvl", MsFormat::Val), "ch.0.mix.lvl|val");
    assert_eq!(ms_format_name(MsFormat::Val), "val");
}
