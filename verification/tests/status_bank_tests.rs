use c1_bridge::console1_status_bank::{
    build_status_bank_slots, hardware_trigger_type_for, start_slot_display_for, status_bank_indicators,
    status_slot_color_for, HardwareTrigger, SlotKind, StartSlotDisplay, START_SLOT_OBJECT_ID,
    STATUS_BANK_FIRST_GROUP_SIZE, STATUS_BANK_SIZE,
};
use c1_bridge::json::{i64_number, JsonValue};
use c1_bridge::lifecycle::Lifecycle;

#[test]
fn status_bank_size_and_start_slot_id_are_consistent() {
    assert_eq!(STATUS_BANK_SIZE, 10);
    assert_eq!(START_SLOT_OBJECT_ID, 9);
}

#[test]
fn build_status_bank_slots_first_group_size() {
    let slots = build_status_bank_slots();
    let indicators = status_bank_indicators();
    assert_eq!(
        slots[0].kind,
        SlotKind::Status {
            key: indicators[0].key,
            label: indicators[0].label,
        }
    );
    assert!(matches!(
        slots[STATUS_BANK_FIRST_GROUP_SIZE - 1].kind,
        SlotKind::Status { .. }
    ));
    assert_eq!(slots[STATUS_BANK_FIRST_GROUP_SIZE].kind, SlotKind::Empty);
}

#[test]
fn start_slot_display_standby_shows_start_with_main_color() {
    let display = start_slot_display_for(Lifecycle::Standby, 0x00a5ff, 0x0000ff);
    assert_eq!(
        display,
        StartSlotDisplay {
            name: "Start",
            color: 0x00a5ff
        }
    );
}

#[test]
fn start_slot_display_running_shows_stop_with_stop_color() {
    let display = start_slot_display_for(Lifecycle::Running, 0x00a5ff, 0x0000ff);
    assert_eq!(
        display,
        StartSlotDisplay {
            name: "Stop",
            color: 0x0000ff
        }
    );
}

fn jint(n: i64) -> JsonValue {
    JsonValue::Number(i64_number(n))
}
fn s(x: &str) -> JsonValue {
    JsonValue::Str(x.to_string())
}

#[test]
fn object_ids_match_construction_order() {
    let slots = build_status_bank_slots();
    assert_eq!(slots.len(), 10);
    for (i, slot) in slots.iter().enumerate() {
        assert_eq!(slot.object_id, i);
    }
}

#[test]
fn build_status_bank_slots_layout_and_indicator_order() {
    let slots = build_status_bank_slots();
    let ind = status_bank_indicators();
    let st = |i: usize| SlotKind::Status { key: ind[i].key, label: ind[i].label };
    let kinds: Vec<SlotKind> = slots.iter().map(|s| s.kind).collect();
    assert_eq!(
        kinds,
        vec![st(0), st(1), st(2), SlotKind::Empty, st(3), st(4), st(5), st(6), SlotKind::Empty, SlotKind::Start]
    );
    let status_kinds: Vec<(&str, &str)> = slots
        .iter()
        .filter_map(|s| match s.kind {
            SlotKind::Status { key, label } => Some((key, label)),
            _ => None,
        })
        .collect();
    let expected: Vec<(&str, &str)> = ind.iter().map(|i| (i.key, i.label)).collect();
    assert_eq!(status_kinds, expected);
}

#[test]
fn build_status_bank_slots_no_ms_channel_mapping() {
    for slot in &build_status_bank_slots() {
        assert!(slot.ms_channels.is_empty());
        assert_eq!(slot.ms_primary, None);
    }
}

#[test]
fn build_status_bank_slots_start_slot_id_matches_constant() {
    let slots = build_status_bank_slots();
    let start_slot = slots.iter().find(|s| s.kind == SlotKind::Start).unwrap();
    assert_eq!(start_slot.object_id, START_SLOT_OBJECT_ID);
    assert!(status_bank_indicators().len() < STATUS_BANK_SIZE);
}

#[test]
fn hardware_trigger_selected_true_while_standby_means_start() {
    assert_eq!(hardware_trigger_type_for(Lifecycle::Standby, &JsonValue::Bool(true)), Some(HardwareTrigger::Start));
}

#[test]
fn hardware_trigger_selected_true_while_running_means_stop() {
    assert_eq!(hardware_trigger_type_for(Lifecycle::Running, &JsonValue::Bool(true)), Some(HardwareTrigger::Stop));
}

#[test]
fn hardware_trigger_false_or_null_is_not_a_trigger() {
    assert_eq!(hardware_trigger_type_for(Lifecycle::Standby, &JsonValue::Bool(false)), None);
    assert_eq!(hardware_trigger_type_for(Lifecycle::Standby, &JsonValue::Null), None);
    assert_eq!(hardware_trigger_type_for(Lifecycle::Running, &JsonValue::Bool(false)), None);
}

#[test]
fn hardware_trigger_only_literal_true_triggers_not_merely_truthy() {
    assert_eq!(hardware_trigger_type_for(Lifecycle::Standby, &jint(1)), None);
    assert_eq!(hardware_trigger_type_for(Lifecycle::Standby, &s("true")), None);
    assert_eq!(hardware_trigger_type_for(Lifecycle::Standby, &JsonValue::Object(vec![])), None);
}

#[test]
fn status_slot_color_true_means_on_color() {
    assert_eq!(status_slot_color_for(&JsonValue::Bool(true), 0x00ff00, 0x0000ff), 0x00ff00);
}

#[test]
fn status_slot_color_false_means_off_color() {
    assert_eq!(status_slot_color_for(&JsonValue::Bool(false), 0x00ff00, 0x0000ff), 0x0000ff);
}

#[test]
fn status_slot_color_null_means_off_color() {
    assert_eq!(status_slot_color_for(&JsonValue::Null, 0x00ff00, 0x0000ff), 0x0000ff);
}

#[test]
fn status_slot_color_any_non_true_value_means_off_not_just_false_null() {
    assert_eq!(status_slot_color_for(&jint(1), 0x00ff00, 0x0000ff), 0x0000ff);
    assert_eq!(status_slot_color_for(&s("true"), 0x00ff00, 0x0000ff), 0x0000ff);
}
