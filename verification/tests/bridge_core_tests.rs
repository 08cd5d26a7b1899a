use c1_bridge::bridge_core::{BridgeCore, InputStdState, TrackUpdate};
use c1_bridge::channel_data_message::MsFormat;
use c1_bridge::config::RuntimeConfig;
use c1_bridge::console_information::ConsoleArchitecture;
use c1_bridge::json::{copy_json, json_equal, JsonNumber, JsonValue, NumberKind};
use c1_bridge::lifecycle::Lifecycle;
use c1_bridge::ms_dispatch::{route_ws_path, WsRoute};
use c1_bridge::ms_requests::MsRequestKind;
use c1_bridge::runtime_rules::build_default_layout;
use c1_bridge::send_mapping::build_send_mapping;
use c1_bridge::sends_mode::InputSendState;
use c1_bridge::track_cache::TrackCache;
use c1_bridge::track_layout::LayoutSlotKind;
use rand::rngs::StdRng;
use rand::SeedableRng;

fn flt(x: f64) -> JsonValue {
    JsonValue::Number(JsonNumber { kind: NumberKind::Float, f64_bits: x.to_bits() })
}
fn obj(pairs: Vec<(&str, JsonValue)>) -> JsonValue {
    JsonValue::Object(pairs.into_iter().map(|(k, v)| (k.to_string(), v)).collect())
}
fn level(v: &JsonValue) -> (JsonValue, Option<u64>) {
    match v {
        JsonValue::Number(n) => (JsonValue::Number(*n), Some(n.f64_bits)),
        other => (copy_json(other), None),
    }
}
fn dual_mono(knob: u64) -> (u64, u64) {
    (knob, knob)
}
fn gain_db(x: u64) -> u64 {
    x
}
fn type_index(_x: u64) -> usize {
    0
}
fn update_field<'a>(updates: &'a [TrackUpdate], track_id: &str, key: &str) -> Option<&'a JsonValue> {
    updates
        .iter()
        .filter(|u| u.track_id == track_id)
        .flat_map(|u| u.fields.iter())
        .filter(|(k, _)| k == key)
        .map(|(_, v)| v)
        .last()
}

fn running_core() -> BridgeCore {
    let config = RuntimeConfig::default();
    let architecture = ConsoleArchitecture {
        total_channels: 80,
        input_channel_count: 32,
        bus_channel_start: 48,
        bus_channel_count: 16,
        main_stereo_channels: vec![70, 71],
    };
    let layout = build_default_layout(&config, &architecture);
    let send_mapping = build_send_mapping(&config.c1_send_to_ms_bus_number, 16);
    BridgeCore {
        layout,
        track_cache: TrackCache::new(),
        lifecycle: Lifecycle::Running,
        config,
        bus_channel_start: 48,
        input_channel_count: 32,
        sends_mode_ms_send_index: Some(0),
        sends_mode_subscribed_ms_send_index: Some(0),
        input_send_state: InputSendState::new(),
        input_std_state: InputStdState::new(),
        send_mapping,
    }
}

fn first_slot(core: &BridgeCore, kind: LayoutSlotKind) -> usize {
    core.layout.iter().find(|s| s.kind == kind && s.ms_primary.is_some()).expect("layout has such a slot").object_id
}

#[test]
fn input_fader_move_queues_an_ms_write_and_updates_the_cached_track() {
    let mut core = running_core();
    core.sends_mode_ms_send_index = None;
    let mut rng = StdRng::seed_from_u64(7);
    let o = first_slot(&core, LayoutSlotKind::Input);
    assert!(core.ensure_track(o, &mut rng));
    let track_id = core.track_cache.get(o).unwrap().track_id.clone();

    let out = core.handle_midi_track_message(o, &obj(vec![("volume", flt(-6.0))]), &mut rng, level, dual_mono, gain_db, type_index);

    assert!(json_equal(&core.track_cache.get(o).unwrap().volume, &flt(-6.0)));
    for ch in core.layout[o].ms_channels.clone() {
        let expected_path = format!("ch.{ch}.mix.lvl");
        let entry = out.writes.iter().find(|w| w.path == expected_path).unwrap_or_else(|| panic!("expected a write to {expected_path}"));
        assert_eq!(entry.format, MsFormat::Val);
        assert!(json_equal(&entry.value, &flt(-6.0)));
    }
    assert!(json_equal(update_field(&out.updates, &track_id, "volume").unwrap(), &flt(-6.0)));
}

#[test]
fn selecting_a_bus_mirrors_the_same_messages_new_volume_into_its_send_slots() {
    let mut core = running_core();
    core.sends_mode_ms_send_index = None;
    core.sends_mode_subscribed_ms_send_index = None;
    let mut rng = StdRng::seed_from_u64(7);
    let o = first_slot(&core, LayoutSlotKind::Bus);
    assert!(core.ensure_track(o, &mut rng));

    let parsed = obj(vec![("volume", flt(-3.0)), ("selected", JsonValue::Bool(true))]);
    let out = core.handle_midi_track_message(o, &parsed, &mut rng, level, dual_mono, gain_db, type_index);

    assert_eq!(core.sends_mode_ms_send_index, Some(core.layout[o].ms_primary.unwrap() - core.bus_channel_start));
    let cached = core.track_cache.get(o).unwrap();
    assert!(json_equal(&cached.volume, &flt(-3.0)));
    assert!(cached.send_levels.iter().all(|l| json_equal(l, &flt(-3.0))));
    assert!(cached.send_on.iter().all(|on| *on));
    assert!(!out.requests.is_empty());
}

#[test]
fn midi_message_for_a_slot_out_of_range_changes_nothing() {
    let mut core = running_core();
    let mut rng = StdRng::seed_from_u64(7);
    let o = core.layout.len();
    let out = core.handle_midi_track_message(o, &obj(vec![("volume", flt(-6.0))]), &mut rng, level, dual_mono, gain_db, type_index);
    assert!(out.updates.is_empty() && out.writes.is_empty() && out.bares.is_empty() && out.requests.is_empty());
    assert_eq!(core.track_cache.cached_object_ids().len(), 0);
}

#[test]
fn midi_mute_and_filter_touch_report_a_track_update_and_a_bare_update() {
    let mut core = running_core();
    core.sends_mode_ms_send_index = None;
    let mut rng = StdRng::seed_from_u64(3);
    let o = first_slot(&core, LayoutSlotKind::Input);
    let parsed = obj(vec![("mute", JsonValue::Bool(true)), ("filterLcOn", obj(vec![("value", JsonValue::Bool(true))]))]);
    let out = core.handle_midi_track_message(o, &parsed, &mut rng, level, dual_mono, gain_db, type_index);
    let track_id = core.track_cache.get(o).unwrap().track_id.clone();
    assert!(core.track_cache.get(o).unwrap().mute);
    assert!(json_equal(update_field(&out.updates, &track_id, "mute").unwrap(), &JsonValue::Bool(true)));
    assert_eq!(out.bares.len(), 1);
    assert_eq!(out.bares[0].field, "filterLcOn");
    assert_eq!(out.bares[0].track_id, track_id);
    let ch = core.layout[o].ms_primary.unwrap();
    assert!(out.writes.iter().any(|w| w.path == format!("ch.{ch}.mix.on")));
    assert!(out.writes.iter().any(|w| w.path == format!("ch.{ch}.preamp.filter.0.on")));
}

#[test]
fn ms_level_update_reaches_the_input_track_and_is_reported() {
    let mut core = running_core();
    core.sends_mode_ms_send_index = None;
    core.sends_mode_subscribed_ms_send_index = None;
    let mut rng = StdRng::seed_from_u64(5);
    let o = first_slot(&core, LayoutSlotKind::Input);
    let ch = core.layout[o].ms_primary.unwrap();
    let out = core.apply_channel_update_to_slot(o, ch, "mix.lvl", MsFormat::Val, &flt(-12.0), false, 0, &mut rng);
    let track = core.track_cache.get(o).unwrap();
    assert!(json_equal(&track.volume, &flt(-12.0)));
    assert!(json_equal(update_field(&out.updates, &track.track_id, "volume").unwrap(), &flt(-12.0)));
}

#[test]
fn suppressed_ms_update_changes_the_track_but_reports_nothing() {
    let mut core = running_core();
    core.sends_mode_ms_send_index = None;
    core.sends_mode_subscribed_ms_send_index = None;
    let mut rng = StdRng::seed_from_u64(5);
    let o = first_slot(&core, LayoutSlotKind::Input);
    let ch = core.layout[o].ms_primary.unwrap();
    let out = core.apply_channel_update_to_slot(o, ch, "mix.lvl", MsFormat::Val, &flt(-12.0), true, 0, &mut rng);
    assert!(json_equal(&core.track_cache.get(o).unwrap().volume, &flt(-12.0)));
    assert!(out.updates.is_empty());
}

#[test]
fn ms_update_on_another_channel_is_skipped() {
    let mut core = running_core();
    let mut rng = StdRng::seed_from_u64(5);
    let o = first_slot(&core, LayoutSlotKind::Input);
    let ch = core.layout[o].ms_primary.unwrap();
    let out = core.apply_channel_update_to_slot(o, ch + 100, "mix.lvl", MsFormat::Val, &flt(-12.0), false, 0, &mut rng);
    assert!(out.updates.is_empty());
    assert!(core.track_cache.get(o).is_none());
}

#[test]
fn solo_on_a_bus_slot_is_skipped() {
    let mut core = running_core();
    let mut rng = StdRng::seed_from_u64(5);
    let o = first_slot(&core, LayoutSlotKind::Bus);
    let ch = core.layout[o].ms_primary.unwrap();
    let out = core.apply_channel_update_to_slot(o, ch, "solo", MsFormat::Val, &JsonValue::Bool(true), false, 0, &mut rng);
    assert!(out.updates.is_empty());
    assert!(core.track_cache.get(o).is_none());
}

#[test]
fn ms_selection_of_a_bus_enters_sends_mode_and_asks_for_its_sends() {
    let mut core = running_core();
    core.sends_mode_ms_send_index = None;
    core.sends_mode_subscribed_ms_send_index = None;
    let mut rng = StdRng::seed_from_u64(9);
    let o = first_slot(&core, LayoutSlotKind::Bus);
    let ch = core.layout[o].ms_primary.unwrap();
    let out = core.apply_channel_update_to_slot(o, ch, "selected", MsFormat::Val, &JsonValue::Bool(true), false, 0, &mut rng);
    assert_eq!(core.sends_mode_ms_send_index, Some(ch - 48));
    assert!(out.requests.iter().any(|r| r.kind == MsRequestKind::Subscribe));
}

#[test]
fn channel_update_fans_out_to_every_listed_slot() {
    let mut core = running_core();
    core.sends_mode_ms_send_index = None;
    core.sends_mode_subscribed_ms_send_index = None;
    let mut rng = StdRng::seed_from_u64(5);
    let o = first_slot(&core, LayoutSlotKind::Input);
    let ch = core.layout[o].ms_primary.unwrap();
    let out = core.apply_channel_update(&[o, core.layout.len() + 5], ch, "mix.on", MsFormat::Val, &JsonValue::Bool(false), false, 0, &mut rng);
    assert!(core.track_cache.get(o).unwrap().mute);
    assert_eq!(out.updates.len(), 1);
}

#[test]
fn replayed_selection_does_not_enter_sends_mode() {
    let mut core = running_core();
    core.sends_mode_ms_send_index = None;
    core.sends_mode_subscribed_ms_send_index = None;
    let mut rng = StdRng::seed_from_u64(5);
    let o = first_slot(&core, LayoutSlotKind::Bus);
    let ch = core.layout[o].ms_primary.unwrap();
    core.replay_update(&[o], ch, "selected", MsFormat::Val, &JsonValue::Bool(true), 0, &mut rng);
    assert_eq!(core.sends_mode_ms_send_index, None);
    assert!(core.track_cache.get(o).unwrap().selected);
}

#[test]
fn replayed_level_lands_in_the_cache() {
    let mut core = running_core();
    core.sends_mode_ms_send_index = None;
    let mut rng = StdRng::seed_from_u64(5);
    let o = first_slot(&core, LayoutSlotKind::Input);
    let ch = core.layout[o].ms_primary.unwrap();
    core.replay_update_to_slot(o, ch, "mix.lvl", MsFormat::Val, &flt(-20.0), 0, &mut rng);
    assert!(json_equal(&core.track_cache.get(o).unwrap().volume, &flt(-20.0)));
}

#[test]
fn ensure_tracks_creates_default_tracks() {
    let mut core = running_core();
    let mut rng = StdRng::seed_from_u64(5);
    core.ensure_tracks(&[0, 1, 2], &mut rng);
    let mut ids = core.track_cache.cached_object_ids();
    ids.sort();
    assert_eq!(ids, vec![0, 1, 2]);
}

#[test]
fn leaving_sends_mode_closes_the_send_subscriptions() {
    let mut core = running_core();
    let mut rng = StdRng::seed_from_u64(5);
    let (_updates, requests) = core.set_sends_mode(None, &mut rng);
    assert_eq!(core.sends_mode_ms_send_index, None);
    assert_eq!(core.sends_mode_subscribed_ms_send_index, None);
    assert!(requests.iter().any(|r| r.kind == MsRequestKind::Unsubscribe));
}

#[test]
fn setting_the_current_sends_mode_changes_nothing() {
    let mut core = running_core();
    let mut rng = StdRng::seed_from_u64(5);
    let (updates, requests) = core.set_sends_mode(Some(0), &mut rng);
    assert!(updates.is_empty() && requests.is_empty());
    assert_eq!(core.sends_mode_ms_send_index, Some(0));
}

#[test]
fn ws_route_recognizes_console_information() {
    assert_eq!(route_ws_path("/console/information"), WsRoute::ConsoleInformation);
}

#[test]
fn ws_route_metering_push_for_subscription_zero_is_ours() {
    assert_eq!(route_ws_path("/console/metering2/0"), WsRoute::Metering2 { ours: true });
    assert_eq!(route_ws_path("/console/metering2/+00"), WsRoute::Metering2 { ours: true });
    assert_eq!(route_ws_path("/console/metering2/-0"), WsRoute::Metering2 { ours: true });
}

#[test]
fn ws_route_metering_push_for_another_subscription_is_not_ours() {
    assert_eq!(route_ws_path("/console/metering2/99"), WsRoute::Metering2 { ours: false });
    assert_eq!(route_ws_path("/console/metering2/"), WsRoute::Metering2 { ours: false });
    assert_eq!(route_ws_path("/console/metering2/+"), WsRoute::Metering2 { ours: false });
    assert_eq!(route_ws_path("/console/metering2/0x0"), WsRoute::Metering2 { ours: false });
}

#[test]
fn ws_route_everything_else_is_channel_data() {
    assert_eq!(route_ws_path("/console/data/get/ch.3.mix.lvl/val"), WsRoute::ChannelData);
    assert_eq!(route_ws_path("/console/metering2"), WsRoute::ChannelData);
    assert_eq!(route_ws_path(""), WsRoute::ChannelData);
}

#[test]
fn ensuring_a_track_twice_keeps_the_first_track() {
    let mut core = running_core();
    let mut rng = StdRng::seed_from_u64(21);
    assert!(core.ensure_track(3, &mut rng));
    let first = core.track_cache.get(3).unwrap().track_id.clone();
    assert!(core.ensure_track(3, &mut rng));
    assert_eq!(core.track_cache.get(3).unwrap().track_id, first);
    assert_eq!(core.track_cache.cached_object_ids(), vec![3]);
}

#[test]
fn entering_sends_mode_twice_asks_nothing_the_second_time() {
    let mut core = running_core();
    core.sends_mode_ms_send_index = None;
    core.sends_mode_subscribed_ms_send_index = None;
    let mut rng = StdRng::seed_from_u64(22);
    let (_u1, r1) = core.set_sends_mode(Some(2), &mut rng);
    assert!(!r1.is_empty());
    let (u2, r2) = core.set_sends_mode(Some(2), &mut rng);
    assert!(u2.is_empty() && r2.is_empty());
    assert_eq!(core.sends_mode_ms_send_index, Some(2));
}
