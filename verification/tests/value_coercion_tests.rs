use c1_bridge::json::{i64_number, json_equal, JsonNumber, JsonValue, NumberKind};
use c1_bridge::value_coercion::{
    coerce_ws_payload_to_text, is_negative_infinity_db, is_non_empty_string, read_c1_dsp_value,
    resolve_next_boolean_from_momentary, trim_stereo_suffix_from_name,
};

#[test]
fn resolve_next_boolean_from_momentary_equal_current_toggles() {
    assert!(!resolve_next_boolean_from_momentary(true, true));
    assert!(resolve_next_boolean_from_momentary(false, false));
}

#[test]
fn resolve_next_boolean_from_momentary_different_used_as_is() {
    assert!(!resolve_next_boolean_from_momentary(true, false));
    assert!(resolve_next_boolean_from_momentary(false, true));
}

#[test]
fn trim_stereo_suffix_from_name_strips_trailing_side_markers() {
    assert_eq!(trim_stereo_suffix_from_name("Keys L"), "Keys");
    assert_eq!(trim_stereo_suffix_from_name("Vox R"), "Vox");
    assert_eq!(trim_stereo_suffix_from_name("GTR P"), "GTR");
}

#[test]
fn trim_stereo_suffix_from_name_strips_marker_before_trailing_bus_label() {
    assert_eq!(trim_stereo_suffix_from_name("Dr L MixBus"), "Dr MixBus");
    assert_eq!(trim_stereo_suffix_from_name("Kuba Vox P MB"), "Kuba Vox MB");
}

#[test]
fn trim_stereo_suffix_from_name_tolerates_multiple_spaces_before_bus_label() {
    assert_eq!(trim_stereo_suffix_from_name("Dr L  MixBus"), "Dr MixBus");
}

#[test]
fn trim_stereo_suffix_from_name_no_marker_passes_through_unchanged() {
    assert_eq!(trim_stereo_suffix_from_name("Lead Vocal"), "Lead Vocal");
}

#[test]
fn trim_stereo_suffix_from_name_keeps_trailing_space_without_marker() {
    assert_eq!(trim_stereo_suffix_from_name("Lead Vocal "), "Lead Vocal ");
}

#[test]
fn trim_stereo_suffix_from_name_marker_before_trailing_space_is_dropped() {
    assert_eq!(trim_stereo_suffix_from_name("Keys L  "), "Keys");
}

#[test]
fn coerce_ws_payload_to_text_decodes_utf8_bytes() {
    assert_eq!(coerce_ws_payload_to_text(b"hi"), "hi");
}

fn jint(n: i64) -> JsonValue {
    JsonValue::Number(i64_number(n))
}
fn flt(x: f64) -> JsonValue {
    JsonValue::Number(JsonNumber { kind: NumberKind::Float, f64_bits: x.to_bits() })
}
fn s(x: &str) -> JsonValue {
    JsonValue::Str(x.to_string())
}
fn same(a: Option<JsonValue>, b: Option<JsonValue>) -> bool {
    match (a, b) {
        (None, None) => true,
        (Some(a), Some(b)) => json_equal(&a, &b),
        _ => false,
    }
}

#[test]
fn is_non_empty_string_rejects_non_strings_empty_and_whitespace_only() {
    assert!(is_non_empty_string(&s("hello")));
    assert!(!is_non_empty_string(&s("")));
    assert!(!is_non_empty_string(&s("   ")));
    assert!(!is_non_empty_string(&jint(42)));
    assert!(!is_non_empty_string(&JsonValue::Null));
}

#[test]
fn is_negative_infinity_db_at_or_below_floor_plus_eps_is_true() {
    assert!(is_negative_infinity_db(&flt(-90.0)));
    assert!(is_negative_infinity_db(&jint(-90)));
    assert!(is_negative_infinity_db(&flt(-89.999)));
    assert!(is_negative_infinity_db(&flt(-1.0e9)));
}

#[test]
fn is_negative_infinity_db_above_floor_is_false() {
    assert!(!is_negative_infinity_db(&jint(-40)));
    assert!(!is_negative_infinity_db(&flt(-89.998)));
    assert!(!is_negative_infinity_db(&jint(0)));
}

#[test]
fn is_negative_infinity_db_non_numbers_are_false() {
    assert!(!is_negative_infinity_db(&s("-90")));
    assert!(!is_negative_infinity_db(&JsonValue::Null));
}

fn wrapped(v: JsonValue) -> JsonValue {
    JsonValue::Object(vec![("value".to_string(), v)])
}

#[test]
fn read_c1_dsp_value_unwraps_value_wrapped_field() {
    assert!(same(read_c1_dsp_value(Some(wrapped(flt(0.5)))), Some(flt(0.5))));
}

#[test]
fn read_c1_dsp_value_unwraps_value_wrapped_boolean() {
    assert!(same(read_c1_dsp_value(Some(wrapped(JsonValue::Bool(true)))), Some(JsonValue::Bool(true))));
}

#[test]
fn read_c1_dsp_value_passes_through_bare_value() {
    assert!(same(read_c1_dsp_value(Some(flt(0.5))), Some(flt(0.5))));
    assert!(same(read_c1_dsp_value(Some(JsonValue::Bool(true))), Some(JsonValue::Bool(true))));
}

#[test]
fn read_c1_dsp_value_none_field_returns_none() {
    assert!(same(read_c1_dsp_value(None), None));
}

#[test]
fn read_c1_dsp_value_null_field_returns_null_not_none() {
    assert!(same(read_c1_dsp_value(Some(JsonValue::Null)), Some(JsonValue::Null)));
}
