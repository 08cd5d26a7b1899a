use c1_bridge::config::{BridgeConfigPatch, RuntimeConfig};
use c1_bridge::control_messages::ControlAction;
use c1_bridge::events::BridgeEvent;
use c1_bridge::json::{i64_number, JsonValue};
use c1_bridge::lifecycle::Lifecycle;
use c1_bridge::track_layout::LayoutSlotKind;
use c1_bridge::bridge_core::TrackUpdate;
use c1_bridge::runtime::{into_chunks, route_midi_json, runtime_step, MidiRoute, RuntimeAction, RuntimeEvent, RuntimeState};
use rand::rngs::StdRng;
use rand::SeedableRng;

fn rng() -> StdRng {
    StdRng::seed_from_u64(7)
}

fn is_log(a: &RuntimeAction, text: &str) -> bool {
    matches!(a, RuntimeAction::Emit(BridgeEvent::Log(s)) if s == text)
}

fn member<'a>(j: &'a JsonValue, key: &str) -> Option<&'a JsonValue> {
    match j {
        JsonValue::Object(m) => m.iter().find(|(k, _)| k == key).map(|(_, v)| v),
        _ => None,
    }
}

fn is_str(j: Option<&JsonValue>, text: &str) -> bool {
    matches!(j, Some(JsonValue::Str(s)) if s == text)
}

fn standby_state() -> (RuntimeState, StdRng) {
    let mut r = rng();
    let mut state = RuntimeState::new(RuntimeConfig::default());
    let _ = runtime_step(&mut state, RuntimeEvent::Stop, &mut r);
    (state, r)
}

#[test]
fn config_apply_in_standby_only_logs() {
    let (mut state, mut r) = standby_state();
    let patch = BridgeConfigPatch { mixing_station_ws_url: Some("ws://example:9000".to_string()), ..Default::default() };
    let actions = runtime_step(&mut state, RuntimeEvent::ConfigApply(patch), &mut r);
    assert_eq!(actions.len(), 1);
    assert!(is_log(&actions[0], "[Lifecycle] Ignoring config:apply -- not running."));
    assert_eq!(state.core.config.mixing_station_ws_url, "ws://localhost:8080");
}

#[test]
fn start_enters_running_and_connects() {
    let (mut state, mut r) = standby_state();
    let actions = runtime_step(&mut state, RuntimeEvent::Start(None), &mut r);
    assert_eq!(actions.len(), 5);
    assert!(is_log(&actions[0], "[Lifecycle] running"));
    assert!(matches!(actions[1], RuntimeAction::Emit(BridgeEvent::LifecycleChanged(Lifecycle::Running))));
    assert!(matches!(actions[2], RuntimeAction::ResetMetering));
    assert!(matches!(&actions[3], RuntimeAction::ConnectWs(u) if u == "ws://localhost:8080"));
    assert!(matches!(actions[4], RuntimeAction::ArmInitFlush(500)));
    assert_eq!(state.core.lifecycle, Lifecycle::Running);
    assert!(state.is_initializing && state.ws_engine);
}

#[test]
fn shutdown_resets_deactivates_closes_and_stops_midi() {
    let (mut state, mut r) = standby_state();
    let _ = runtime_step(&mut state, RuntimeEvent::Start(None), &mut r);
    let _ = runtime_step(&mut state, RuntimeEvent::InitFlushDue, &mut r);
    let tracks = state.core.track_cache.cached_object_ids().len();
    assert!(tracks > 0);
    let actions = runtime_step(&mut state, RuntimeEvent::Shutdown, &mut r);
    assert_eq!(actions.len(), 9);
    assert!(matches!(&actions[0], RuntimeAction::SendSysexJson(j) if is_str(member(j, "cmd"), "RESET")));
    assert!(is_log(&actions[1], "Sent RESET command to Console 1."));
    match &actions[2] {
        RuntimeAction::SendTrackBatches(batches) => {
            assert_eq!(batches.len(), (tracks + 99) / 100);
            assert!(batches.iter().all(|b| !b.is_empty() && b.len() <= 100));
            assert_eq!(batches.iter().map(|b| b.len()).sum::<usize>(), tracks);
            for e in batches.iter().flatten() {
                assert!(matches!(member(e, "isActive"), Some(JsonValue::Bool(false))));
            }
        }
        _ => panic!("expected the deactivation batch"),
    }
    assert!(is_log(&actions[3], "Deactivated all tracks on Console 1."));
    assert!(is_log(&actions[4], "Cleared track cache."));
    assert!(is_log(&actions[5], "Disabled OSD."));
    assert!(matches!(actions[6], RuntimeAction::CloseWs));
    assert!(is_log(&actions[7], "Closed Mixing Station WebSocket."));
    assert!(matches!(actions[8], RuntimeAction::StopMidi));
    assert!(state.core.track_cache.cached_object_ids().is_empty());
    assert!(!state.ws_engine);
}

#[test]
fn init_flush_sends_the_initial_dump_once() {
    let (mut state, mut r) = standby_state();
    let _ = runtime_step(&mut state, RuntimeEvent::Start(None), &mut r);
    let actions = runtime_step(&mut state, RuntimeEvent::InitFlushDue, &mut r);
    assert_eq!(actions.len(), 2);
    assert!(is_log(&actions[0], "Finalizing initialization (timeout). Sending initial track dump..."));
    match &actions[1] {
        RuntimeAction::SendTrackDump(batches) => {
            assert_eq!(batches.iter().map(|b| b.len()).sum::<usize>(), state.core.layout.len());
            assert!(batches.iter().all(|b| !b.is_empty() && b.len() <= 100));
        }
        _ => panic!("expected the track dump"),
    }
    assert!(state.has_sent_initial_track_dump && !state.is_initializing);
    let again = runtime_step(&mut state, RuntimeEvent::InitFlushDue, &mut r);
    assert!(again.is_empty());
}

#[test]
fn ws_connect_asks_for_console_information() {
    let (mut state, mut r) = standby_state();
    let _ = runtime_step(&mut state, RuntimeEvent::Start(None), &mut r);
    let actions = runtime_step(&mut state, RuntimeEvent::WsConnected, &mut r);
    assert_eq!(actions.len(), 3);
    assert!(is_log(&actions[0], "Connected to Mixing Station WebSocket"));
    assert!(matches!(&actions[1], RuntimeAction::WsSend(j)
        if is_str(member(j, "path"), "/console/information") && is_str(member(j, "method"), "GET")));
    assert!(matches!(actions[2], RuntimeAction::ArmConsoleInfoTimeout(600)));
    assert!(state.ws_connected && state.console_info_pending);
    let finish = runtime_step(&mut state, RuntimeEvent::ConsoleInfoTimeout, &mut r);
    let n = finish.len();
    assert!(n > 4);
    assert!(matches!(finish[0], RuntimeAction::ResetMetering));
    assert!(matches!(&finish[n - 3], RuntimeAction::SendSysexJson(j) if member(j, "handshake").is_some()));
    assert!(is_log(&finish[n - 2], "Console 1 handshake sent."));
    assert!(matches!(finish[n - 1], RuntimeAction::ArmInitFlush(2500)));
    assert!(!state.console_info_pending && !state.osd_enabled);
}

#[test]
fn ws_disconnect_closes_the_init_window() {
    let (mut state, mut r) = standby_state();
    let _ = runtime_step(&mut state, RuntimeEvent::Start(None), &mut r);
    let _ = runtime_step(&mut state, RuntimeEvent::WsConnected, &mut r);
    let actions = runtime_step(&mut state, RuntimeEvent::WsDisconnected, &mut r);
    assert_eq!(actions.len(), 2);
    assert!(is_log(&actions[0], "Mixing Station WebSocket disconnected, will auto-reconnect."));
    assert!(matches!(actions[1], RuntimeAction::CancelInitFlush));
    assert!(!state.ws_connected && !state.is_initializing);
}

#[test]
fn update_flush_is_gated_on_osd() {
    let (mut state, mut r) = standby_state();
    state.update_queue.queue("AAAA0001".to_string(), vec![("mute".to_string(), JsonValue::Bool(true))], false);
    let actions = runtime_step(&mut state, RuntimeEvent::FlushUpdates, &mut r);
    assert_eq!(actions.len(), 1);
    assert!(matches!(&actions[0], RuntimeAction::SendTrackBatches(b) if b.is_empty()));
    assert!(!state.update_queue.is_empty());
    let on = runtime_step(&mut state, RuntimeEvent::Control(ControlAction::EnableOsd), &mut r);
    assert!(is_log(&on[0], "Enabling OSD."));
    let actions = runtime_step(&mut state, RuntimeEvent::FlushUpdates, &mut r);
    assert_eq!(actions.len(), 2);
    match &actions[1] {
        RuntimeAction::SendTrackBatches(b) => {
            assert_eq!(b.len(), 1);
            let e = &b[0];
            assert_eq!(e.len(), 1);
            assert!(is_str(member(&e[0], "trackId"), "AAAA0001"));
            assert!(matches!(member(&e[0], "mute"), Some(JsonValue::Bool(true))));
        }
        _ => panic!("expected the queued updates"),
    }
    assert!(state.update_queue.is_empty());
}

#[test]
fn write_flush_drops_writes_while_disconnected() {
    let (mut state, mut r) = standby_state();
    state.ms_write_queue.queue("ch.0.mix.lvl".to_string(), "norm".to_string(), JsonValue::Number(i64_number(1)));
    let actions = runtime_step(&mut state, RuntimeEvent::FlushWrites { now: 10 }, &mut r);
    assert!(actions.is_empty());
    assert!(state.ms_write_queue.is_empty());
}

#[test]
fn write_flush_sends_set_requests_while_connected() {
    let (mut state, mut r) = standby_state();
    let _ = runtime_step(&mut state, RuntimeEvent::Start(None), &mut r);
    let _ = runtime_step(&mut state, RuntimeEvent::WsConnected, &mut r);
    state.ms_write_queue.queue("ch.0.mix.lvl".to_string(), "norm".to_string(), JsonValue::Number(i64_number(1)));
    let actions = runtime_step(&mut state, RuntimeEvent::FlushWrites { now: 10 }, &mut r);
    assert_eq!(actions.len(), 1);
    assert!(matches!(&actions[0], RuntimeAction::WsSend(j)
        if is_str(member(j, "path"), "/console/data/set/ch.0.mix.lvl/norm") && is_str(member(j, "method"), "POST")));
    assert!(state.ms_write_queue.is_empty());
}

#[test]
fn config_apply_with_no_change_says_so() {
    let (mut state, mut r) = standby_state();
    let _ = runtime_step(&mut state, RuntimeEvent::Start(None), &mut r);
    let actions = runtime_step(&mut state, RuntimeEvent::ConfigApply(BridgeConfigPatch::default()), &mut r);
    assert_eq!(actions.len(), 1);
    assert!(is_log(&actions[0], "[config] No changes to apply"));
}

#[test]
fn config_apply_url_change_reconnects() {
    let (mut state, mut r) = standby_state();
    let _ = runtime_step(&mut state, RuntimeEvent::Start(None), &mut r);
    let patch = BridgeConfigPatch { mixing_station_ws_url: Some(" ws://example:9000 ".to_string()), ..Default::default() };
    let actions = runtime_step(&mut state, RuntimeEvent::ConfigApply(patch), &mut r);
    assert_eq!(actions.len(), 4);
    assert!(is_log(&actions[0], "[config] Applied updates (wsUrlChanged=yes) ws://localhost:8080 -> ws://example:9000"));
    assert!(matches!(actions[1], RuntimeAction::Emit(BridgeEvent::ConfigApplied { url_changed: true, anything_changed: true })));
    assert!(matches!(actions[2], RuntimeAction::CloseWs));
    assert!(matches!(&actions[3], RuntimeAction::ConnectWs(u) if u == "ws://example:9000"));
}

#[test]
fn schedule_full_resync_reopens_the_init_window() {
    let (mut state, mut r) = standby_state();
    let _ = runtime_step(&mut state, RuntimeEvent::Start(None), &mut r);
    let busy = runtime_step(&mut state, RuntimeEvent::Control(ControlAction::ScheduleFullResync), &mut r);
    assert!(busy.is_empty());
    let _ = runtime_step(&mut state, RuntimeEvent::InitFlushDue, &mut r);
    let actions = runtime_step(&mut state, RuntimeEvent::Control(ControlAction::ScheduleFullResync), &mut r);
    assert_eq!(actions.len(), 2);
    assert!(is_log(&actions[0], "[Lifecycle] Scheduling a full Console 1 resync."));
    assert!(matches!(actions[1], RuntimeAction::ArmInitFlush(500)));
    assert!(state.is_initializing && !state.has_sent_initial_track_dump);
}

fn obj(members: Vec<(&str, JsonValue)>) -> JsonValue {
    JsonValue::Object(members.into_iter().map(|(k, v)| (k.to_string(), v)).collect())
}

#[test]
fn reset_in_standby_routes_to_its_control_actions() {
    let (state, _) = standby_state();
    let msg = obj(vec![("cmd", JsonValue::Str("RESET".to_string())), ("activeMeters", JsonValue::Array(vec![]))]);
    match route_midi_json(&state, &msg) {
        MidiRoute::Control { actions, active_meters } => {
            assert_eq!(actions, vec![ControlAction::DisableOsd, ControlAction::ResendHandshake, ControlAction::ReaffirmStatusBank]);
            assert!(active_meters.is_none());
        }
        _ => panic!("expected a control route"),
    }
}

#[test]
fn handshake_ack_while_running_finalizes_and_carries_meters() {
    let (mut state, mut r) = standby_state();
    let _ = runtime_step(&mut state, RuntimeEvent::Start(None), &mut r);
    let msg = obj(vec![
        ("handshake", obj(vec![("ack", JsonValue::Bool(true))])),
        ("activeMeters", JsonValue::Array(vec![JsonValue::Str("AB12CD34".to_string())])),
    ]);
    match route_midi_json(&state, &msg) {
        MidiRoute::Control { actions, active_meters } => {
            assert_eq!(actions, vec![ControlAction::EnableOsd, ControlAction::FinalizeInitialization]);
            assert_eq!(active_meters, Some(vec!["AB12CD34".to_string()]));
        }
        _ => panic!("expected a control route"),
    }
}

#[test]
fn track_messages_route_to_their_slot_or_are_ignored() {
    let (mut state, mut r) = standby_state();
    let _ = runtime_step(&mut state, RuntimeEvent::Start(None), &mut r);
    let _ = runtime_step(&mut state, RuntimeEvent::InitFlushDue, &mut r);
    let o = (0..state.core.layout.len()).find(|&i| state.core.layout[i].kind != LayoutSlotKind::Empty).expect("a real slot");
    let id = state.core.track_cache.get(o).expect("track exists").track_id.clone();
    let msg = obj(vec![("trackId", JsonValue::Str(id)), ("mute", JsonValue::Bool(true))]);
    assert!(matches!(route_midi_json(&state, &msg), MidiRoute::Track(x) if x == o));
    let unknown = obj(vec![("trackId", JsonValue::Str("DEADBEEF".to_string()))]);
    assert!(matches!(route_midi_json(&state, &unknown), MidiRoute::Ignored));
    let meters = obj(vec![("activeMeters", JsonValue::Array(vec![]))]);
    assert!(matches!(route_midi_json(&state, &meters), MidiRoute::ActiveMeters(v) if v.is_empty()));
}

#[test]
fn batches_hold_at_most_one_hundred_entries_in_order() {
    let parts = into_chunks((0..250).collect::<Vec<u32>>());
    assert_eq!(parts.len(), 3);
    assert_eq!(parts[0], (0..100).collect::<Vec<u32>>());
    assert_eq!(parts[1], (100..200).collect::<Vec<u32>>());
    assert_eq!(parts[2], (200..250).collect::<Vec<u32>>());
    assert!(into_chunks(Vec::<u32>::new()).is_empty());
    assert_eq!(into_chunks((0..100).collect::<Vec<u32>>()).len(), 1);
}

#[test]
fn handled_messages_arm_the_flush_timers_of_non_empty_queues() {
    let (mut state, mut r) = standby_state();
    assert!(runtime_step(&mut state, RuntimeEvent::InboundHandled, &mut r).is_empty());
    let updates = vec![TrackUpdate { track_id: "AAAA0001".to_string(), fields: vec![("meter".to_string(), JsonValue::Bool(true))] }];
    let actions = runtime_step(&mut state, RuntimeEvent::QueueUpdates { updates, force: true }, &mut r);
    assert_eq!(actions.len(), 1);
    assert!(matches!(actions[0], RuntimeAction::ArmUpdateFlush));
    state.ms_write_queue.queue("ch.0.mix.lvl".to_string(), "norm".to_string(), JsonValue::Bool(true));
    let actions = runtime_step(&mut state, RuntimeEvent::InboundHandled, &mut r);
    assert_eq!(actions.len(), 2);
    assert!(matches!(actions[0], RuntimeAction::ArmUpdateFlush));
    assert!(matches!(actions[1], RuntimeAction::ArmWriteFlush));
    let flushed = runtime_step(&mut state, RuntimeEvent::FlushUpdates, &mut r);
    assert!(matches!(&flushed[0], RuntimeAction::SendTrackBatches(b) if b.len() == 1 && b[0].len() == 1));
}
