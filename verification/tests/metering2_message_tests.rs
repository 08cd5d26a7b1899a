use base64::{engine::general_purpose::STANDARD, Engine as _};
use c1_bridge::json::{i64_number, json_equal, JsonNumber, JsonValue, NumberKind};
use c1_bridge::metering2_message::{
    affected_metered_object_ids, build_metering2_subscribe_body, normalize_metering2_values, Metering2Levels,
};
use c1_bridge::track_layout::{LayoutSlot, LayoutSlotKind};
use std::collections::{HashMap, HashSet};

#[test]
fn affected_metered_object_ids_intersects_channel_map_with_metered_set() {
    let mut map: HashMap<usize, Vec<usize>> = HashMap::new();
    map.insert(5, vec![10, 11]);
    map.insert(6, vec![12]);
    let metered: HashSet<usize> = [10, 12].into_iter().collect();
    let affected = affected_metered_object_ids(&[5, 6], &map, &metered);
    assert_eq!(affected, [10, 12].into_iter().collect::<HashSet<usize>>());
}

#[test]
fn affected_metered_object_ids_ignores_channels_with_no_mapped_objects() {
    let map: HashMap<usize, Vec<usize>> = HashMap::new();
    let metered: HashSet<usize> = [10].into_iter().collect();
    let affected = affected_metered_object_ids(&[5], &map, &metered);
    assert!(affected.is_empty());
}

#[test]
fn affected_metered_object_ids_ignores_negative_channels() {
    let mut map: HashMap<usize, Vec<usize>> = HashMap::new();
    map.insert(5, vec![10]);
    let metered: HashSet<usize> = [10].into_iter().collect();
    let affected = affected_metered_object_ids(&[-1, 5], &map, &metered);
    assert_eq!(affected, [10].into_iter().collect::<HashSet<usize>>());
}

fn jint(n: i64) -> JsonValue {
    JsonValue::Number(i64_number(n))
}
fn flt(x: f64) -> JsonValue {
    JsonValue::Number(JsonNumber { kind: NumberKind::Float, f64_bits: x.to_bits() })
}
fn s(x: &str) -> JsonValue {
    JsonValue::Str(x.to_string())
}
fn arr(xs: Vec<JsonValue>) -> JsonValue {
    JsonValue::Array(xs)
}
fn floats(xs: &[f64]) -> JsonValue {
    arr(xs.iter().map(|x| flt(*x)).collect())
}
fn body_v(v: JsonValue) -> JsonValue {
    JsonValue::Object(vec![("v".to_string(), v)])
}
fn db_levels(body: &JsonValue, count: usize) -> Option<Vec<f64>> {
    match normalize_metering2_values(body, count) {
        Some(Metering2Levels::DbBits(bits)) => Some(bits.into_iter().map(f64::from_bits).collect()),
        Some(Metering2Levels::CentiDb(c)) => Some(c.into_iter().map(|x| x as f64 / 100.0).collect()),
        None => None,
    }
}
fn get<'a>(v: &'a JsonValue, key: &str) -> &'a JsonValue {
    v.get(key).expect("member present")
}

#[test]
fn nested_array_shape_used_as_is() {
    let body = body_v(arr(vec![floats(&[-20.0]), floats(&[-18.0, -19.0])]));
    assert_eq!(db_levels(&body, 2).unwrap(), vec![-20.0, -18.0]);
}

#[test]
fn per_param_scalar_list_is_wrapped() {
    let body = body_v(floats(&[-20.0, -25.0, -30.0]));
    assert_eq!(db_levels(&body, 3).unwrap(), vec![-20.0, -25.0, -30.0]);
}

#[test]
fn flat_multi_value_per_param_is_chunked() {
    let body = body_v(floats(&[-20.0, -21.0, -25.0, -26.0, -30.0, -31.0]));
    assert_eq!(db_levels(&body, 3).unwrap(), vec![-20.0, -25.0, -30.0]);
}

#[test]
fn single_param_multi_value_falls_back_to_one_list() {
    let body = body_v(floats(&[-20.0, -20.0]));
    let result = db_levels(&body, 3).unwrap();
    assert_eq!(result.len(), 1);
    assert_eq!(result[0], -20.0);
}

#[test]
fn scalar_v_becomes_single_param_single_value() {
    assert_eq!(db_levels(&body_v(flt(-90.0)), 1).unwrap(), vec![-90.0]);
}

#[test]
fn non_finite_values_in_a_params_list_are_skipped_from_the_max() {
    let body = body_v(arr(vec![arr(vec![s("not a number"), flt(-20.0)])]));
    assert_eq!(db_levels(&body, 1).unwrap(), vec![-20.0]);
}

#[test]
fn param_with_no_finite_values_yields_negative_infinity() {
    let body = body_v(arr(vec![arr(vec![s("not a number")])]));
    assert_eq!(db_levels(&body, 1).unwrap()[0], f64::NEG_INFINITY);
}

#[test]
fn missing_v_and_b_yields_none() {
    assert!(normalize_metering2_values(&JsonValue::Object(vec![]), 1).is_none());
}

#[test]
fn binary_payload_decodes_via_existing_decoder() {
    let mut buf = Vec::new();
    buf.extend_from_slice(&(-2000i16).to_be_bytes());
    buf.extend_from_slice(&(-1800i16).to_be_bytes());
    let encoded = STANDARD.encode(&buf).trim_end_matches('=').to_string();
    let body = JsonValue::Object(vec![("b".to_string(), s(&encoded))]);
    assert_eq!(normalize_metering2_values(&body, 1), Some(Metering2Levels::CentiDb(vec![-1800])));
    assert_eq!(db_levels(&body, 1).unwrap(), vec![-18.0]);
}

#[test]
fn zero_param_count_yields_none_for_every_payload_shape() {
    assert!(normalize_metering2_values(&body_v(floats(&[-20.0, -20.0])), 0).is_none());
    assert!(normalize_metering2_values(&body_v(arr(vec![floats(&[-20.0])])), 0).is_none());
    assert!(normalize_metering2_values(&body_v(flt(-90.0)), 0).is_none());
    let b = JsonValue::Object(vec![("b".to_string(), s("AAA"))]);
    assert!(normalize_metering2_values(&b, 0).is_none());
}

#[test]
fn group_maximum_handles_mixed_signs_and_integers() {
    let body = body_v(arr(vec![arr(vec![flt(-3.5), jint(2), flt(1.5), JsonValue::Null])]));
    assert_eq!(db_levels(&body, 1).unwrap(), vec![2.0]);
    let infinite = body_v(arr(vec![arr(vec![flt(f64::INFINITY), flt(-1.0)])]));
    assert_eq!(db_levels(&infinite, 1).unwrap(), vec![-1.0]);
}

fn test_slot(object_id: usize, ms_channels: Vec<usize>) -> LayoutSlot {
    LayoutSlot { object_id, kind: LayoutSlotKind::Input, ms_channels, ms_primary: None, pan_locked: false }
}

#[test]
fn build_metering2_subscribe_body_empty_set_yields_empty_params() {
    let (channels, body) = build_metering2_subscribe_body(&HashSet::new(), &[], 100);
    assert!(channels.is_empty());
    assert!(json_equal(get(get(&body, "body"), "params"), &arr(vec![])));
}

#[test]
fn build_metering2_subscribe_body_maps_object_ids_to_sorted_deduped_channels() {
    let layout = vec![test_slot(0, vec![5]), test_slot(1, vec![2, 3]), test_slot(2, vec![3])];
    let metered: HashSet<usize> = [0, 1, 2].into_iter().collect();
    let (channels, body) = build_metering2_subscribe_body(&metered, &layout, 250);
    assert_eq!(channels, vec![2, 3, 5]);
    let inner = get(&body, "body");
    assert!(json_equal(get(inner, "interval"), &jint(250)));
    assert!(json_equal(get(inner, "id"), &jint(0)));
    assert!(json_equal(get(inner, "binary"), &JsonValue::Bool(false)));
    let param = |ch: i64| JsonValue::Object(vec![("type".to_string(), jint(0)), ("index".to_string(), jint(ch))]);
    assert!(json_equal(get(inner, "params"), &arr(vec![param(2), param(3), param(5)])));
}

#[test]
fn build_metering2_subscribe_body_skips_object_ids_with_no_layout_slot() {
    let layout = vec![test_slot(0, vec![1])];
    let metered: HashSet<usize> = [0, 99].into_iter().collect();
    let (channels, _body) = build_metering2_subscribe_body(&metered, &layout, 100);
    assert_eq!(channels, vec![1]);
}

#[test]
fn build_metering2_subscribe_body_has_correct_path_and_method() {
    let (_channels, body) = build_metering2_subscribe_body(&HashSet::new(), &[], 100);
    assert!(json_equal(get(&body, "path"), &s("/console/metering2/subscribe")));
    assert!(json_equal(get(&body, "method"), &s("POST")));
}
