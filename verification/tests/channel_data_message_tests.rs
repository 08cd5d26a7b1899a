use c1_bridge::channel_data_message::{parse_channel_data_get_message, MsFormat};
use c1_bridge::json::{i64_number, json_equal, JsonNumber, JsonValue, NumberKind};

fn s(x: &str) -> JsonValue {
    JsonValue::Str(x.to_string())
}
fn jint(n: i64) -> JsonValue {
    JsonValue::Number(i64_number(n))
}
fn flt(x: f64) -> JsonValue {
    JsonValue::Number(JsonNumber { kind: NumberKind::Float, f64_bits: x.to_bits() })
}
fn obj(members: Vec<(&str, JsonValue)>) -> JsonValue {
    JsonValue::Object(members.into_iter().map(|(k, v)| (k.to_string(), v)).collect())
}

#[test]
fn parses_val_format_with_body_value() {
    let msg = obj(vec![("path", s("/console/data/get/ch.5.mix.lvl/val")), ("body", obj(vec![("value", flt(-6.0))]))]);
    let parsed = parse_channel_data_get_message(msg).expect("should parse");
    assert_eq!(parsed.channel_index, 5);
    assert_eq!(parsed.param_path, "mix.lvl");
    assert_eq!(parsed.format, MsFormat::Val);
    assert!(json_equal(&parsed.value, &flt(-6.0)));
}

#[test]
fn parses_norm_format() {
    let msg = obj(vec![("path", s("/console/data/get/ch.0.mix.pan/norm")), ("body", obj(vec![("value", flt(0.5))]))]);
    let parsed = parse_channel_data_get_message(msg).expect("should parse");
    assert_eq!(parsed.format, MsFormat::Norm);
}

#[test]
fn missing_or_unrecognized_format_segment_defaults_to_val() {
    let msg = obj(vec![
        ("path", s("/console/data/get/ch.0.mix.on/garbage")),
        ("body", obj(vec![("value", JsonValue::Bool(true))])),
    ]);
    let parsed = parse_channel_data_get_message(msg).expect("should parse");
    assert_eq!(parsed.format, MsFormat::Val);
}

#[test]
fn multi_segment_param_path_is_preserved_whole() {
    let msg = obj(vec![
        ("path", s("/console/data/get/ch.2.peq.bands.0.freq/norm")),
        ("body", obj(vec![("value", flt(0.3))])),
    ]);
    let parsed = parse_channel_data_get_message(msg).expect("should parse");
    assert_eq!(parsed.param_path, "peq.bands.0.freq");
}

#[test]
fn falls_back_to_top_level_value_when_body_value_absent() {
    let msg = obj(vec![("path", s("/console/data/get/ch.1.solo/val")), ("value", JsonValue::Bool(true))]);
    let parsed = parse_channel_data_get_message(msg).expect("should parse");
    assert!(json_equal(&parsed.value, &JsonValue::Bool(true)));
}

#[test]
fn falls_back_to_top_level_value_when_body_value_is_explicitly_null() {
    let msg = obj(vec![
        ("path", s("/console/data/get/ch.1.solo/val")),
        ("body", obj(vec![("value", JsonValue::Null)])),
        ("value", JsonValue::Bool(true)),
    ]);
    let parsed = parse_channel_data_get_message(msg).expect("should parse");
    assert!(json_equal(&parsed.value, &JsonValue::Bool(true)));
}

#[test]
fn zero_and_false_body_values_are_not_treated_as_absent() {
    let msg = obj(vec![("path", s("/console/data/get/ch.1.mix.lvl/val")), ("body", obj(vec![("value", jint(0))]))]);
    let parsed = parse_channel_data_get_message(msg).expect("should parse");
    assert!(json_equal(&parsed.value, &jint(0)));
}

#[test]
fn value_is_null_when_neither_body_value_nor_top_level_value_present() {
    let msg = obj(vec![("path", s("/console/data/get/ch.1.mix.lvl/val"))]);
    let parsed = parse_channel_data_get_message(msg).expect("should parse");
    assert!(json_equal(&parsed.value, &JsonValue::Null));
}

#[test]
fn rejects_paths_not_matching_console_data_get_ch_prefix() {
    let msg = obj(vec![("path", s("/console/information")), ("body", obj(vec![]))]);
    assert!(parse_channel_data_get_message(msg).is_none());
}

#[test]
fn rejects_missing_path() {
    let msg = obj(vec![("body", obj(vec![("value", jint(1))]))]);
    assert!(parse_channel_data_get_message(msg).is_none());
}

#[test]
fn rejects_non_numeric_channel_index() {
    let msg = obj(vec![("path", s("/console/data/get/ch.x.mix.lvl/val"))]);
    assert!(parse_channel_data_get_message(msg).is_none());
}

#[test]
fn rejects_signed_channel_index() {
    for path in ["/console/data/get/ch.-1.mix.lvl/val", "/console/data/get/ch.+5.mix.lvl/val"] {
        let msg = obj(vec![("path", s(path)), ("body", obj(vec![("value", jint(1))]))]);
        assert!(parse_channel_data_get_message(msg).is_none(), "expected {path} to be rejected");
    }
}

#[test]
fn rejects_empty_channel_index() {
    let msg = obj(vec![("path", s("/console/data/get/ch..mix.lvl/val"))]);
    assert!(parse_channel_data_get_message(msg).is_none());
}

#[test]
fn rejects_empty_param_path_and_oversized_channel_index() {
    let msg = obj(vec![("path", s("/console/data/get/ch.3./val"))]);
    assert!(parse_channel_data_get_message(msg).is_none());
    let msg = obj(vec![("path", s("/console/data/get/ch.99999999999999999999.mix.lvl/val"))]);
    assert!(parse_channel_data_get_message(msg).is_none());
}

#[test]
fn norm_must_be_the_whole_rest_of_the_path() {
    let msg = obj(vec![("path", s("/console/data/get/ch.3.mix.pan/norm/extra"))]);
    let parsed = parse_channel_data_get_message(msg).expect("should parse");
    assert_eq!(parsed.format, MsFormat::Val);
    assert_eq!(parsed.channel_index, 3);
}
