use c1_bridge::send_mapping::build_send_mapping;

#[test]
fn configured_bus_numbers_map_slots_to_zero_based_ms_send_indices() {
    let mapping = build_send_mapping(&[1, 2, 3, 7, 9, 13], 16);
    assert_eq!(mapping.c1_to_ms_send_index, [0, 1, 2, 6, 8, 12]);
    assert_eq!(mapping.ms_send_index_to_c1_slot.get(&6), Some(&3));
    assert_eq!(mapping.ms_send_index_to_c1_slot.get(&12), Some(&5));
}

#[test]
fn out_of_range_bus_number_falls_back_to_identity_for_that_slot() {
    let mapping = build_send_mapping(&[99, 2, 3, 4, 5, 6], 16);
    assert_eq!(mapping.c1_to_ms_send_index[0], 0);
    assert_eq!(mapping.c1_to_ms_send_index[1], 1);
}

#[test]
fn zero_or_negative_bus_number_falls_back_to_identity_for_that_slot() {
    let mapping = build_send_mapping(&[0, -1, 3, 4, 5, 6], 16);
    assert_eq!(mapping.c1_to_ms_send_index[0], 0);
    assert_eq!(mapping.c1_to_ms_send_index[1], 1);
}

#[test]
fn shorter_config_array_falls_back_to_identity_for_missing_slots() {
    let mapping = build_send_mapping(&[1, 2], 16);
    assert_eq!(mapping.c1_to_ms_send_index, [0, 1, 2, 3, 4, 5]);
}

#[test]
fn multiple_slots_mapping_to_the_same_ms_send_index_keeps_the_first() {
    let mapping = build_send_mapping(&[1, 1, 3, 4, 5, 6], 16);
    assert_eq!(mapping.c1_to_ms_send_index[0], 0);
    assert_eq!(mapping.c1_to_ms_send_index[1], 0);
    assert_eq!(mapping.ms_send_index_to_c1_slot.get(&0), Some(&0));
}

#[test]
fn empty_config_falls_back_to_identity_mapping() {
    let mapping = build_send_mapping(&[], 16);
    assert_eq!(mapping.c1_to_ms_send_index, [0, 1, 2, 3, 4, 5]);
    for i in 0..6usize {
        assert_eq!(mapping.ms_send_index_to_c1_slot.get(&i), Some(&i));
    }
}
