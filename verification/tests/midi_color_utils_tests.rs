use c1_bridge::json::{i64_number, JsonNumber, JsonValue, NumberKind};
use c1_bridge::midi_color_utils::{
    ms_color_to_softube_color_int, ms_styleclass_to_palette_index, palette_color_of, tint_softube_color_60,
    MS_PALETTE_BASE_COLORS,
};

fn jint(n: i64) -> JsonValue {
    JsonValue::Number(i64_number(n))
}
fn flt(x: f64) -> JsonValue {
    JsonValue::Number(JsonNumber { kind: NumberKind::Float, f64_bits: x.to_bits() })
}

#[test]
fn palette_index_0_to_7_maps_directly_to_base_colors() {
    assert_eq!(ms_color_to_softube_color_int(&jint(1)), Some(MS_PALETTE_BASE_COLORS[1]));
    assert_eq!(ms_color_to_softube_color_int(&jint(2)), Some(MS_PALETTE_BASE_COLORS[2]));
}

#[test]
fn palette_index_8_to_15_tints_base_color_inv_variant() {
    let result = ms_color_to_softube_color_int(&jint(9));
    assert_eq!(result, Some(tint_softube_color_60(MS_PALETTE_BASE_COLORS[1])));
    assert_eq!(result, Some(0x9999ff));
}

#[test]
fn already_encoded_rgb_int_passes_through_unchanged() {
    assert_eq!(ms_color_to_softube_color_int(&jint(0x123456)), Some(0x123456));
}

#[test]
fn styleclass_string_maps_via_lookup_table() {
    let idx = ms_styleclass_to_palette_index("mixer-green").unwrap();
    assert_eq!(
        ms_color_to_softube_color_int(&JsonValue::Str("mixer-green".to_string())),
        Some(MS_PALETTE_BASE_COLORS[idx as usize])
    );
}

#[test]
fn unknown_styleclass_string_returns_none() {
    assert_eq!(ms_color_to_softube_color_int(&JsonValue::Str("not-a-real-class".to_string())), None);
}

#[test]
fn out_of_range_number_returns_none() {
    assert_eq!(ms_color_to_softube_color_int(&jint(-1)), None);
    assert_eq!(ms_color_to_softube_color_int(&jint(0x1000000)), None);
}

#[test]
fn whole_number_float_behaves_identically_to_integer() {
    assert_eq!(ms_color_to_softube_color_int(&flt(8.0)), ms_color_to_softube_color_int(&jint(8)));
    assert_eq!(ms_color_to_softube_color_int(&flt(100.0)), ms_color_to_softube_color_int(&jint(100)));
}

#[test]
fn genuinely_fractional_number_still_returns_none() {
    assert_eq!(ms_color_to_softube_color_int(&flt(1.5)), None);
}

#[test]
fn inv_styleclass_uses_the_tinted_palette_entry() {
    assert_eq!(ms_styleclass_to_palette_index("mixer-white-inv"), Some(15));
    assert_eq!(
        ms_color_to_softube_color_int(&JsonValue::Str("mixer-black-inv".to_string())),
        Some(0x999999)
    );
    assert_eq!(palette_color_of(15), 0xffffff);
}

#[test]
fn negative_zero_and_large_floats_convert_like_integers() {
    assert_eq!(ms_color_to_softube_color_int(&flt(-0.0)), Some(0));
    assert_eq!(ms_color_to_softube_color_int(&flt(1.0e30)), None);
    assert_eq!(ms_color_to_softube_color_int(&flt(-3.0)), None);
    assert_eq!(ms_color_to_softube_color_int(&flt(1193046.0)), Some(0x123456));
}

#[test]
fn non_number_non_string_values_return_none() {
    assert_eq!(ms_color_to_softube_color_int(&JsonValue::Bool(true)), None);
    assert_eq!(ms_color_to_softube_color_int(&JsonValue::Null), None);
}
