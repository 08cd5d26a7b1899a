use c1_bridge::config::TrackOrderEntry;
use c1_bridge::track_layout::{build_track_layout, LayoutSlotKind, TrackLayoutParams};

fn base_params() -> (Vec<TrackOrderEntry>, Vec<TrackOrderEntry>, Vec<usize>) {
    (vec![], vec![], vec![70, 71])
}

#[test]
fn first_real_input_slot_is_object_id_0() {
    let (input_order, bus_order, main) = base_params();
    let params = TrackLayoutParams {
        input_track_order: &input_order,
        bus_track_order: &bus_order,
        input_channel_count: 4,
        bus_channel_start: 48,
        bus_channel_count: 2,
        main_stereo_channels: &main,
    };
    let slots = build_track_layout(&params);
    assert_eq!(slots[0].kind, LayoutSlotKind::Input);
    assert_eq!(slots[0].ms_channels, vec![0]);
    assert_eq!(slots[0].ms_primary, Some(0));
}

use c1_bridge::track_layout::{object_ids_by_ms_channel, LayoutSlot};

fn params_layout(input_order: &[TrackOrderEntry], bus_order: &[TrackOrderEntry], inputs: usize, buses: usize) -> Vec<LayoutSlot> {
    let main = vec![70usize, 71];
    let params = TrackLayoutParams {
        input_track_order: input_order,
        bus_track_order: bus_order,
        input_channel_count: inputs,
        bus_channel_start: 48,
        bus_channel_count: buses,
        main_stereo_channels: &main,
    };
    build_track_layout(&params)
}

fn of_kind(slots: &[LayoutSlot], kind: LayoutSlotKind) -> Vec<&LayoutSlot> {
    slots.iter().filter(|s| s.kind == kind).collect()
}

#[test]
fn unordered_input_channels_default_to_ascending_ms_channel_order() {
    let slots = params_layout(&[], &[], 3, 2);
    let input_slots = of_kind(&slots, LayoutSlotKind::Input);
    assert_eq!(input_slots.len(), 3);
    assert_eq!(input_slots[0].ms_primary, Some(0));
    assert_eq!(input_slots[1].ms_primary, Some(1));
    assert_eq!(input_slots[2].ms_primary, Some(2));
}

#[test]
fn configured_input_order_is_respected_and_unlisted_channels_appended() {
    let slots = params_layout(&[TrackOrderEntry::Single(2)], &[], 3, 2);
    let input_slots = of_kind(&slots, LayoutSlotKind::Input);
    assert_eq!(input_slots[0].ms_primary, Some(2));
    assert_eq!(input_slots[1].ms_primary, Some(0));
    assert_eq!(input_slots[2].ms_primary, Some(1));
}

#[test]
fn stereo_linked_input_pair_becomes_one_slot_with_pan_locked() {
    let slots = params_layout(&[TrackOrderEntry::Pair(0, 1)], &[], 4, 2);
    let input_slots = of_kind(&slots, LayoutSlotKind::Input);
    assert_eq!(input_slots[0].ms_channels, vec![0, 1]);
    assert_eq!(input_slots[0].ms_primary, Some(0));
    assert!(input_slots[0].pan_locked);
    assert_eq!(input_slots[1].ms_channels, vec![2]);
    assert!(!input_slots[1].pan_locked);
}

#[test]
fn input_banks_are_10_wide_with_empty_slots_padding_a_partial_bank() {
    let slots = params_layout(&[], &[], 3, 2);
    let input_bank = &slots[0..10];
    assert_eq!(input_bank.iter().filter(|s| s.kind == LayoutSlotKind::Input).count(), 3);
    assert_eq!(input_bank.iter().filter(|s| s.kind == LayoutSlotKind::Empty).count(), 7);
}

#[test]
fn main_is_placed_once_on_the_10th_fader_of_the_last_bus_bank() {
    let slots = params_layout(&[], &[], 0, 2);
    assert_eq!(slots.len(), 10);
    let main_slots = of_kind(&slots, LayoutSlotKind::Main);
    assert_eq!(main_slots.len(), 1);
    assert_eq!(main_slots[0].object_id, 9);
    assert_eq!(main_slots[0].ms_channels, vec![70, 71]);
}

#[test]
fn bus_stereo_pair_uses_bus_channel_start_offset() {
    let slots = params_layout(&[], &[TrackOrderEntry::Pair(1, 2)], 0, 4);
    let bus_slots = of_kind(&slots, LayoutSlotKind::Bus);
    assert_eq!(bus_slots[0].ms_channels, vec![48, 49]);
    assert!(bus_slots[0].pan_locked);
}

#[test]
fn invalid_stereo_pair_entries_are_silently_dropped() {
    let slots = params_layout(&[TrackOrderEntry::Pair(0, 0), TrackOrderEntry::Pair(99, 100)], &[], 2, 2);
    let input_slots = of_kind(&slots, LayoutSlotKind::Input);
    assert_eq!(input_slots.len(), 2);
    assert_eq!(input_slots[0].ms_channels, vec![0]);
    assert_eq!(input_slots[1].ms_channels, vec![1]);
}

#[test]
fn object_ids_by_ms_channel_maps_each_channel_to_its_slot() {
    let slots = params_layout(&[], &[], 2, 2);
    let map = object_ids_by_ms_channel(&slots);
    assert_eq!(map.get(&0), Some(&vec![0]));
    assert_eq!(map.get(&1), Some(&vec![1]));
}

#[test]
fn every_slot_object_id_is_its_position() {
    let slots = params_layout(&[TrackOrderEntry::Pair(2, 3)], &[TrackOrderEntry::Single(2)], 25, 12);
    for (i, slot) in slots.iter().enumerate() {
        assert_eq!(slot.object_id, i);
    }
    assert_eq!(slots.len() % 10, 0);
}
