use c1_bridge::track_id::TrackIdRegistry;

#[test]
fn registry_unknown_track_id_resolves_to_none() {
    let registry = TrackIdRegistry::new();
    assert_eq!(registry.object_id_for_track_id("DEADBEEF"), None);
}

use c1_bridge::track_id::generate_unique_track_id_8_hex;
use rand::rngs::StdRng;
use rand::SeedableRng;
use std::collections::HashSet;

fn value_of(id: &str) -> u32 {
    u32::from_str_radix(id, 16).unwrap()
}

#[test]
fn generate_unique_track_id_is_8_uppercase_hex_chars() {
    let mut rng = StdRng::seed_from_u64(1);
    let mut used = HashSet::new();
    let id = generate_unique_track_id_8_hex(&mut rng, &mut used);
    assert_eq!(id.len(), 8);
    assert!(id.chars().all(|c| c.is_ascii_hexdigit() && !c.is_ascii_lowercase()));
}

#[test]
fn generate_unique_track_id_registers_itself_in_used() {
    let mut rng = StdRng::seed_from_u64(2);
    let mut used = HashSet::new();
    let id = generate_unique_track_id_8_hex(&mut rng, &mut used);
    assert!(used.contains(&value_of(&id)));
}

#[test]
fn generate_unique_track_id_retries_on_forced_collision() {
    let mut rng1 = StdRng::seed_from_u64(42);
    let mut used1 = HashSet::new();
    let first = generate_unique_track_id_8_hex(&mut rng1, &mut used1);

    let mut rng2 = StdRng::seed_from_u64(42);
    let mut used2 = HashSet::new();
    used2.insert(value_of(&first));
    let second = generate_unique_track_id_8_hex(&mut rng2, &mut used2);

    assert_ne!(first, second);
    assert!(used2.contains(&value_of(&second)));
}

#[test]
fn registry_get_or_create_is_idempotent_for_same_object_id() {
    let mut rng = StdRng::seed_from_u64(3);
    let mut registry = TrackIdRegistry::new();
    let first = registry.get_or_create(5, &mut rng);
    let second = registry.get_or_create(5, &mut rng);
    assert_eq!(first, second);
}

#[test]
fn registry_get_or_create_differs_across_object_ids() {
    let mut rng = StdRng::seed_from_u64(4);
    let mut registry = TrackIdRegistry::new();
    let a = registry.get_or_create(0, &mut rng);
    let b = registry.get_or_create(1, &mut rng);
    assert_ne!(a, b);
}

#[test]
fn registry_resolves_track_id_back_to_object_id() {
    let mut rng = StdRng::seed_from_u64(5);
    let mut registry = TrackIdRegistry::new();
    let id = registry.get_or_create(7, &mut rng);
    assert_eq!(registry.object_id_for_track_id(&id), Some(7));
}

#[test]
fn render_track_id_is_eight_upper_hex_digits_of_the_value() {
    assert_eq!(c1_bridge::track_id::render_track_id(0xdeadbeef), "DEADBEEF");
    assert_eq!(c1_bridge::track_id::render_track_id(0x1a), "0000001A");
}
