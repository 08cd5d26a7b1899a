use c1_bridge::bare_update_queue::BareUpdateQueue;
use c1_bridge::echo_suppression::{EchoSuppressionTracker, MS_ECHO_SUPPRESS_WINDOW_MICROS};
use c1_bridge::json::{i64_number, json_equal, JsonNumber, JsonValue, NumberKind};
use c1_bridge::ms_write_queue::{build_ms_set_request, MsWriteQueue};
use c1_bridge::update_queue::UpdateQueue;

fn jint(n: i64) -> JsonValue {
    JsonValue::Number(i64_number(n))
}
fn flt(x: f64) -> JsonValue {
    JsonValue::Number(JsonNumber { kind: NumberKind::Float, f64_bits: x.to_bits() })
}
fn s(x: &str) -> JsonValue {
    JsonValue::Str(x.to_string())
}
fn fields(pairs: Vec<(&str, JsonValue)>) -> Vec<(String, JsonValue)> {
    pairs.into_iter().map(|(k, v)| (k.to_string(), v)).collect()
}
fn get<'a>(pairs: &'a [(String, JsonValue)], key: &str) -> Option<&'a JsonValue> {
    pairs.iter().find(|(k, _)| k == key).map(|(_, v)| v)
}
fn same(a: Option<&JsonValue>, b: &JsonValue) -> bool {
    a.map_or(false, |a| json_equal(a, b))
}

// ----- update queue -----

#[test]
fn queue_empty_partial_is_a_no_op() {
    let mut q: UpdateQueue<JsonValue> = UpdateQueue::new();
    q.queue("T1".into(), Vec::new(), false);
    assert!(q.is_empty());
}

#[test]
fn queue_merges_non_overlapping_fields_for_same_track() {
    let mut q = UpdateQueue::new();
    q.queue("T1".into(), fields(vec![("volume", jint(0))]), false);
    q.queue("T1".into(), fields(vec![("mute", JsonValue::Bool(true))]), false);
    let all = q.take_all();
    assert_eq!(all.len(), 1);
    assert_eq!(all[0].0, "T1");
    assert!(same(get(&all[0].1.fields, "volume"), &jint(0)));
    assert!(same(get(&all[0].1.fields, "mute"), &JsonValue::Bool(true)));
}

#[test]
fn queue_later_value_wins_for_same_field() {
    let mut q = UpdateQueue::new();
    q.queue("T1".into(), fields(vec![("volume", jint(0))]), false);
    q.queue("T1".into(), fields(vec![("volume", jint(-6))]), false);
    let all = q.take_all();
    assert!(same(get(&all[0].1.fields, "volume"), &jint(-6)));
    assert_eq!(all[0].1.fields.len(), 1);
}

#[test]
fn queue_force_send_is_sticky() {
    let mut q = UpdateQueue::new();
    q.queue("T1".into(), fields(vec![("color", jint(1))]), true);
    q.queue("T1".into(), fields(vec![("name", s("X"))]), false);
    let all = q.take_all();
    assert!(all[0].1.force_send);
}

#[test]
fn take_forced_only_returns_and_removes_forced_entries() {
    let mut q = UpdateQueue::new();
    q.queue("FORCED".into(), fields(vec![("color", jint(1))]), true);
    q.queue("NORMAL".into(), fields(vec![("volume", jint(0))]), false);

    let forced = q.take_forced();
    assert_eq!(forced.len(), 1);
    assert_eq!(forced[0].0, "FORCED");

    assert!(!q.is_empty());
    let remaining = q.take_all();
    assert_eq!(remaining.len(), 1);
    assert_eq!(remaining[0].0, "NORMAL");
}

#[test]
fn take_all_drains_the_whole_queue() {
    let mut q = UpdateQueue::new();
    q.queue("A".into(), fields(vec![("x", jint(1))]), false);
    q.queue("B".into(), fields(vec![("y", jint(2))]), true);
    let all = q.take_all();
    assert_eq!(all.len(), 2);
    assert!(q.is_empty());
}

#[test]
fn separate_track_ids_stay_separate() {
    let mut q = UpdateQueue::new();
    q.queue("A".into(), fields(vec![("volume", jint(1))]), false);
    q.queue("B".into(), fields(vec![("volume", jint(2))]), false);
    let all = q.take_all();
    assert_eq!(all.len(), 2);
}

#[test]
fn coalesced_fields_keep_first_queued_order() {
    let mut q = UpdateQueue::new();
    q.queue("T".into(), fields(vec![("a", jint(1)), ("b", jint(2))]), false);
    q.queue("T".into(), fields(vec![("c", jint(3)), ("a", jint(4))]), false);
    let all = q.take_all();
    let keys: Vec<&str> = all[0].1.fields.iter().map(|(k, _)| k.as_str()).collect();
    assert_eq!(keys, vec!["a", "b", "c"]);
    assert!(same(get(&all[0].1.fields, "a"), &jint(4)));
}

// ----- bare field queue -----

#[test]
fn bare_update_queue_queue_then_take_all_returns_the_entry() {
    let mut q = BareUpdateQueue::new();
    q.queue("trk-1".to_string(), "filterLcOn".to_string(), JsonValue::Bool(true));
    let entries = q.take_all();
    assert_eq!(entries.len(), 1);
    assert_eq!(entries[0].track_id, "trk-1");
    assert_eq!(entries[0].field, "filterLcOn");
    assert!(json_equal(&entries[0].value, &JsonValue::Bool(true)));
    assert!(q.is_empty());
}

#[test]
fn later_queue_for_same_track_and_field_overwrites_earlier_value() {
    let mut q = BareUpdateQueue::new();
    q.queue("trk-1".to_string(), "eq1Freq".to_string(), flt(0.2));
    q.queue("trk-1".to_string(), "eq1Freq".to_string(), flt(0.7));
    let entries = q.take_all();
    assert_eq!(entries.len(), 1);
    assert!(json_equal(&entries[0].value, &flt(0.7)));
}

#[test]
fn different_fields_on_same_track_stay_separate() {
    let mut q = BareUpdateQueue::new();
    q.queue("trk-1".to_string(), "eq1Freq".to_string(), flt(0.2));
    q.queue("trk-1".to_string(), "eq1Gain".to_string(), flt(0.5));
    let entries = q.take_all();
    assert_eq!(entries.len(), 2);
}

#[test]
fn bare_update_queue_take_all_on_empty_queue_returns_empty_vec() {
    let mut q: BareUpdateQueue<JsonValue> = BareUpdateQueue::new();
    assert!(q.take_all().is_empty());
}

// ----- MS write queue -----

#[test]
fn ms_write_queue_queue_then_take_all_returns_the_entry() {
    let mut q = MsWriteQueue::new();
    q.queue("ch.0.mix.lvl".to_string(), "val".to_string(), flt(-6.0));
    let entries = q.take_all();
    assert_eq!(entries.len(), 1);
    assert_eq!(entries[0].path, "ch.0.mix.lvl");
    assert_eq!(entries[0].format, "val");
    assert!(json_equal(&entries[0].value, &flt(-6.0)));
    assert!(q.is_empty());
}

#[test]
fn later_queue_for_same_path_and_format_overwrites_earlier_value() {
    let mut q = MsWriteQueue::new();
    q.queue("ch.0.mix.pan".to_string(), "norm".to_string(), flt(0.2));
    q.queue("ch.0.mix.pan".to_string(), "norm".to_string(), flt(0.8));
    let entries = q.take_all();
    assert_eq!(entries.len(), 1);
    assert!(json_equal(&entries[0].value, &flt(0.8)));
}

#[test]
fn same_path_different_format_stays_separate() {
    let mut q = MsWriteQueue::new();
    q.queue("ch.0.mix.pan".to_string(), "val".to_string(), flt(0.0));
    q.queue("ch.0.mix.pan".to_string(), "norm".to_string(), flt(0.5));
    let entries = q.take_all();
    assert_eq!(entries.len(), 2);
}

#[test]
fn different_paths_stay_separate() {
    let mut q = MsWriteQueue::new();
    q.queue("ch.0.mix.lvl".to_string(), "val".to_string(), flt(-6.0));
    q.queue("ch.1.mix.lvl".to_string(), "val".to_string(), flt(-3.0));
    let entries = q.take_all();
    assert_eq!(entries.len(), 2);
}

#[test]
fn ms_write_queue_take_all_on_empty_queue_returns_empty_vec() {
    let mut q: MsWriteQueue<JsonValue> = MsWriteQueue::new();
    assert!(q.take_all().is_empty());
}

#[test]
fn build_set_request_produces_the_correct_ws_payload_shape() {
    let payload = build_ms_set_request("ch.0.mix.lvl", "val", flt(-6.0));
    let expected = JsonValue::Object(vec![
        ("path".to_string(), s("/console/data/set/ch.0.mix.lvl/val")),
        ("method".to_string(), s("POST")),
        ("body".to_string(), JsonValue::Object(vec![("value".to_string(), flt(-6.0))])),
    ]);
    assert!(json_equal(&payload, &expected));
}

// ----- echo suppression -----

const MS: u64 = 1000;

#[test]
fn no_recorded_write_does_not_suppress() {
    let mut tracker = EchoSuppressionTracker::new();
    assert!(!tracker.should_suppress("ch.0.mix.pan|norm", &flt(0.5), 7));
}

#[test]
fn matching_value_within_window_is_suppressed_exactly_once() {
    let mut tracker = EchoSuppressionTracker::new();
    let t0 = 1_000_000;
    tracker.note_write("ch.0.mix.pan|norm", flt(0.5), t0);
    let t1 = t0 + 50 * MS;
    assert!(tracker.should_suppress("ch.0.mix.pan|norm", &flt(0.5), t1));
    assert!(!tracker.should_suppress("ch.0.mix.pan|norm", &flt(0.5), t1));
}

#[test]
fn expired_entry_is_not_suppressed_and_is_cleaned_up() {
    let mut tracker = EchoSuppressionTracker::new();
    let t0 = 1_000_000;
    tracker.note_write("ch.0.mix.on|val", JsonValue::Bool(true), t0);
    let t1 = t0 + 151 * MS;
    assert!(!tracker.should_suppress("ch.0.mix.on|val", &JsonValue::Bool(true), t1));
    assert!(!tracker.should_suppress("ch.0.mix.on|val", &JsonValue::Bool(true), t1));
}

#[test]
fn echo_exactly_at_window_edge_is_still_suppressed() {
    let mut tracker = EchoSuppressionTracker::new();
    tracker.note_write("k", jint(1), 10);
    assert!(tracker.should_suppress("k", &jint(1), 10 + MS_ECHO_SUPPRESS_WINDOW_MICROS));
}

#[test]
fn mismatched_value_is_not_suppressed_and_entry_survives() {
    let mut tracker = EchoSuppressionTracker::new();
    let t0 = 1_000_000;
    tracker.note_write("ch.0.mix.lvl|val", flt(-6.0), t0);
    let t1 = t0 + 10 * MS;
    assert!(!tracker.should_suppress("ch.0.mix.lvl|val", &flt(-3.0), t1));
    assert!(tracker.should_suppress("ch.0.mix.lvl|val", &flt(-6.0), t1));
}

#[test]
fn loose_equality_treats_bool_true_and_one_as_equal() {
    let mut tracker = EchoSuppressionTracker::new();
    tracker.note_write("ch.0.solo|val", JsonValue::Bool(true), 5);
    assert!(tracker.should_suppress("ch.0.solo|val", &jint(1), 5));
}

#[test]
fn loose_equality_treats_bool_false_and_zero_as_equal() {
    let mut tracker = EchoSuppressionTracker::new();
    tracker.note_write("ch.0.mix.on|val", JsonValue::Bool(false), 5);
    assert!(tracker.should_suppress("ch.0.mix.on|val", &jint(0), 5));
}

#[test]
fn loose_equality_treats_integer_and_float_representations_as_equal() {
    let mut tracker = EchoSuppressionTracker::new();
    tracker.note_write("ch.0.mix.lvl|val", jint(-6), 5);
    assert!(tracker.should_suppress("ch.0.mix.lvl|val", &flt(-6.0), 5));
}

#[test]
fn different_keys_do_not_interfere() {
    let mut tracker = EchoSuppressionTracker::new();
    tracker.note_write("ch.0.mix.pan|norm", flt(0.5), 5);
    assert!(!tracker.should_suppress("ch.1.mix.pan|norm", &flt(0.5), 5));
}

#[test]
fn note_write_overwrites_a_prior_pending_entry_for_the_same_key() {
    let mut tracker = EchoSuppressionTracker::new();
    tracker.note_write("ch.0.mix.lvl|val", flt(-6.0), 5);
    tracker.note_write("ch.0.mix.lvl|val", flt(-3.0), 5);
    assert!(!tracker.should_suppress("ch.0.mix.lvl|val", &flt(-6.0), 5));
    assert!(tracker.should_suppress("ch.0.mix.lvl|val", &flt(-3.0), 5));
}

#[test]
fn queuing_a_field_twice_equals_queuing_the_later_value_with_both_force_flags() {
    let mut twice: UpdateQueue<JsonValue> = UpdateQueue::new();
    twice.queue("trk".to_string(), fields(vec![("volume", jint(1))]), true);
    twice.queue("trk".to_string(), fields(vec![("volume", jint(2))]), false);
    let mut once: UpdateQueue<JsonValue> = UpdateQueue::new();
    once.queue("trk".to_string(), fields(vec![("volume", jint(2))]), true);
    let a = twice.take_all();
    let b = once.take_all();
    assert_eq!(a.len(), 1);
    assert_eq!(b.len(), 1);
    assert_eq!(a[0].0, b[0].0);
    assert_eq!(a[0].1.force_send, b[0].1.force_send);
    assert_eq!(a[0].1.fields.len(), 1);
    assert!(same(get(&a[0].1.fields, "volume"), &jint(2)));
}
