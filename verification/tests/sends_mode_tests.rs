use c1_bridge::json::{i64_number, json_equal, JsonNumber, JsonValue, NumberKind};
use c1_bridge::lifecycle::Lifecycle;
use c1_bridge::send_mapping::build_send_mapping;
use c1_bridge::sends_mode::{
    clear_console1_send_slots, handle_sends_mode_input_update, is_sends_mode_active, maybe_latch_sends_mode_from_selection,
    mirror_console1_send_slots_from_volume, InputSendState, SendsModeInputUpdateOutcome,
};
use c1_bridge::track_cache::{create_default_track_for_slot, DefaultTrackColors, TrackInfo};
use c1_bridge::track_layout::{LayoutSlot, LayoutSlotKind};

fn jint(n: i64) -> JsonValue {
    JsonValue::Number(i64_number(n))
}
fn flt(x: f64) -> JsonValue {
    JsonValue::Number(JsonNumber { kind: NumberKind::Float, f64_bits: x.to_bits() })
}
fn field<'a>(pairs: &'a [(String, JsonValue)], key: &str) -> Option<&'a JsonValue> {
    pairs.iter().find(|(k, _)| k == key).map(|(_, v)| v)
}
fn assert_json(a: Option<&JsonValue>, b: &JsonValue) {
    assert!(json_equal(a.expect("value present"), b));
}

fn bus_slot(object_id: usize, ms_primary: usize) -> LayoutSlot {
    LayoutSlot { object_id, kind: LayoutSlotKind::Bus, ms_channels: vec![ms_primary], ms_primary: Some(ms_primary), pan_locked: false }
}

fn main_slot(object_id: usize) -> LayoutSlot {
    LayoutSlot { object_id, kind: LayoutSlotKind::Main, ms_channels: vec![70, 71], ms_primary: Some(70), pan_locked: true }
}

fn input_slot(object_id: usize, ms_primary: usize) -> LayoutSlot {
    LayoutSlot { object_id, kind: LayoutSlotKind::Input, ms_channels: vec![ms_primary], ms_primary: Some(ms_primary), pan_locked: false }
}

fn default_colors() -> DefaultTrackColors {
    DefaultTrackColors {
        bus_color: 0x00a5ff,
        main_color: 0x00a5ff,
        status_off_color: 0x0000ff,
        status_on_color: 0x00ff00,
        start_color: 0xff841b,
        stop_color: 0x5a28f8,
    }
}

fn default_track(slot: &LayoutSlot) -> TrackInfo {
    create_default_track_for_slot(slot, "trk-1".to_string(), Lifecycle::Running, &default_colors(), 48)
}

#[test]
fn is_sends_mode_active_reflects_option_state() {
    assert!(!is_sends_mode_active(None));
    assert!(is_sends_mode_active(Some(3)));
}

#[test]
fn selecting_a_bus_latches_sends_mode_to_its_ms_send_index() {
    let slot = bus_slot(20, 50);
    assert_eq!(maybe_latch_sends_mode_from_selection(&slot, "selected", &JsonValue::Bool(true), 48), Some(Some(2)));
}

#[test]
fn selecting_main_clears_sends_mode() {
    let slot = main_slot(69);
    assert_eq!(maybe_latch_sends_mode_from_selection(&slot, "selected", &JsonValue::Bool(true), 48), Some(None));
}

#[test]
fn selecting_an_input_is_a_no_op() {
    let slot = input_slot(0, 0);
    assert_eq!(maybe_latch_sends_mode_from_selection(&slot, "selected", &JsonValue::Bool(true), 48), None);
}

#[test]
fn non_selected_param_path_is_a_no_op() {
    let slot = bus_slot(20, 50);
    assert_eq!(maybe_latch_sends_mode_from_selection(&slot, "mix.lvl", &JsonValue::Bool(true), 48), None);
}

#[test]
fn deselecting_a_bus_is_a_no_op() {
    let slot = bus_slot(20, 50);
    assert_eq!(maybe_latch_sends_mode_from_selection(&slot, "selected", &JsonValue::Bool(false), 48), None);
}

#[test]
fn sends_mode_input_update_suppresses_standard_mute_and_pan_while_active() {
    let slot = input_slot(0, 0);
    let mut track = default_track(&slot);
    let mapping = build_send_mapping(&[], 16);
    let mut state = InputSendState::new();
    let result = handle_sends_mode_input_update(&slot, 0, "mix.on", &JsonValue::Bool(true), Some(2), &mapping, &mut track, &mut state);
    assert!(matches!(result, SendsModeInputUpdateOutcome::Suppressed));
}

#[test]
fn sends_mode_input_update_not_handled_when_sends_mode_inactive() {
    let slot = input_slot(0, 0);
    let mut track = default_track(&slot);
    let mapping = build_send_mapping(&[], 16);
    let mut state = InputSendState::new();
    let result = handle_sends_mode_input_update(&slot, 0, "mix.on", &JsonValue::Bool(true), None, &mapping, &mut track, &mut state);
    assert!(matches!(result, SendsModeInputUpdateOutcome::NotHandled));
}

#[test]
fn sends_mode_input_update_applies_active_send_on_and_mirrors_to_mute() {
    let slot = input_slot(0, 0);
    let mut track = default_track(&slot);
    track.mute = true;
    let mapping = build_send_mapping(&[], 16);
    let mut state = InputSendState::new();
    let result = handle_sends_mode_input_update(&slot, 0, "mix.sends.2.on", &JsonValue::Bool(true), Some(2), &mapping, &mut track, &mut state);
    match result {
        SendsModeInputUpdateOutcome::Applied { changed } => {
            assert_json(field(&changed, "send3On"), &JsonValue::Bool(true));
            assert_json(field(&changed, "mute"), &JsonValue::Bool(false));
        }
        other => panic!("expected Applied, got {other:?}"),
    }
    assert!(track.send_on[2]);
    assert!(!track.mute);
    assert_eq!(state.get(0), Some((Some(true), None)));
}

#[test]
fn sends_mode_input_update_applies_active_send_pan() {
    let slot = input_slot(0, 0);
    let mut track = default_track(&slot);
    let mapping = build_send_mapping(&[], 16);
    let mut state = InputSendState::new();
    let result = handle_sends_mode_input_update(&slot, 0, "mix.sends.2.pan", &flt(0.75), Some(2), &mapping, &mut track, &mut state);
    match result {
        SendsModeInputUpdateOutcome::Applied { changed } => {
            assert_json(field(&changed, "pan"), &flt(0.75));
        }
        other => panic!("expected Applied, got {other:?}"),
    }
    assert_eq!(f64::from_bits(track.pan_bits), 0.75);
}

#[test]
fn sends_mode_input_update_pan_skipped_for_stereo_linked_pair() {
    let mut slot = input_slot(0, 0);
    let mut track = default_track(&slot);
    slot.pan_locked = true;
    slot.ms_channels = vec![0, 1];
    let mapping = build_send_mapping(&[], 16);
    let mut state = InputSendState::new();
    let result = handle_sends_mode_input_update(&slot, 0, "mix.sends.2.pan", &flt(0.75), Some(2), &mapping, &mut track, &mut state);
    match result {
        SendsModeInputUpdateOutcome::Applied { changed } => {
            assert!(field(&changed, "pan").is_none());
        }
        other => panic!("expected Applied with no pan change, got {other:?}"),
    }
}

#[test]
fn sends_mode_input_update_other_param_path_not_handled() {
    let slot = input_slot(0, 0);
    let mut track = default_track(&slot);
    let mapping = build_send_mapping(&[], 16);
    let mut state = InputSendState::new();
    let result = handle_sends_mode_input_update(
        &slot, 0, "cfg.name", &JsonValue::Str("Vocal".to_string()), Some(2), &mapping, &mut track, &mut state,
    );
    assert!(matches!(result, SendsModeInputUpdateOutcome::NotHandled));
}

#[test]
fn mirror_console1_send_slots_from_volume_sets_all_six_slots_and_forces_on() {
    let mut track = default_track(&bus_slot(20, 50));
    let changed = mirror_console1_send_slots_from_volume(&mut track, &flt(-6.0));
    for i in 1..=6 {
        assert!(json_equal(&track.send_levels[i - 1], &flt(-6.0)));
        assert!(track.send_on[i - 1]);
        assert_json(field(&changed, &format!("send{i}")), &flt(-6.0));
        assert_json(field(&changed, &format!("send{i}On")), &JsonValue::Bool(true));
    }
}

#[test]
fn mirror_console1_send_slots_reports_no_change_when_already_mirrored() {
    let mut track = default_track(&bus_slot(20, 50));
    mirror_console1_send_slots_from_volume(&mut track, &flt(-6.0));
    let changed = mirror_console1_send_slots_from_volume(&mut track, &flt(-6.0));
    assert!(changed.is_empty());
}

#[test]
fn clear_console1_send_slots_zeroes_and_turns_off_all_six() {
    let mut track = default_track(&bus_slot(20, 50));
    mirror_console1_send_slots_from_volume(&mut track, &flt(-6.0));
    let changed = clear_console1_send_slots(&mut track);
    for i in 1..=6 {
        assert!(json_equal(&track.send_levels[i - 1], &jint(0)));
        assert!(!track.send_on[i - 1]);
        assert_json(field(&changed, &format!("send{i}")), &jint(0));
        assert_json(field(&changed, &format!("send{i}On")), &JsonValue::Bool(false));
    }
}
