use c1_bridge::console_information::{apply_console_information, ChannelTypeEntry, ConsoleArchitecture, ConsoleInformation};

fn defaults() -> ConsoleArchitecture {
    ConsoleArchitecture {
        total_channels: 80,
        input_channel_count: 32,
        bus_channel_start: 48,
        bus_channel_count: 16,
        main_stereo_channels: vec![70, 71],
    }
}

fn entry(name: &str, offset: Option<i64>, count: Option<i64>) -> ChannelTypeEntry {
    ChannelTypeEntry { name: name.to_string(), short_name: String::new(), offset, count }
}

fn info(total: Option<i64>, types: Vec<ChannelTypeEntry>) -> ConsoleInformation {
    ConsoleInformation { is_object: true, total_channels: total, channel_types: types }
}

fn types(types: Vec<ChannelTypeEntry>) -> ConsoleInformation {
    info(None, types)
}

#[test]
fn null_info_is_a_no_op() {
    let not_object = ConsoleInformation { is_object: false, total_channels: None, channel_types: Vec::new() };
    assert_eq!(apply_console_information(&not_object, defaults()), defaults());
}

#[test]
fn non_object_info_is_a_no_op() {
    // A string response: not an object, whatever else was read off it.
    let not_object = ConsoleInformation {
        is_object: false,
        total_channels: Some(64),
        channel_types: vec![entry("Bus", Some(50), Some(12))],
    };
    assert_eq!(apply_console_information(&not_object, defaults()), defaults());
}

#[test]
fn applies_total_channels_when_positive_finite() {
    let result = apply_console_information(&info(Some(64), Vec::new()), defaults());
    assert_eq!(result.total_channels, 64);
}

#[test]
fn ignores_non_positive_total_channels() {
    let result = apply_console_information(&info(Some(0), Vec::new()), defaults());
    assert_eq!(result.total_channels, 80);
}

#[test]
fn applies_input_type_with_zero_offset() {
    let i = types(vec![entry("Input", Some(0), Some(24)), entry("Bus", Some(24), Some(8))]);
    assert_eq!(apply_console_information(&i, defaults()).input_channel_count, 24);
}

#[test]
fn discards_input_type_with_nonzero_offset() {
    let i = types(vec![entry("Channel", Some(4), Some(20))]);
    assert_eq!(apply_console_information(&i, defaults()).input_channel_count, 32);
}

#[test]
fn prefers_zero_offset_input_candidate_over_lower_sorted_alternative() {
    let i = types(vec![entry("Ch Group B", Some(40), Some(4)), entry("Ch Group A", Some(0), Some(16))]);
    assert_eq!(apply_console_information(&i, defaults()).input_channel_count, 16);
}

#[test]
fn bus_offset_and_count_apply_independently() {
    let i = types(vec![entry("Bus", Some(-1), Some(12))]);
    let result = apply_console_information(&i, defaults());
    assert_eq!(result.bus_channel_start, 48);
    assert_eq!(result.bus_channel_count, 12);
}

#[test]
fn bus_with_non_positive_count_is_not_selected_at_all() {
    let i = types(vec![entry("Bus", Some(50), Some(0))]);
    assert_eq!(apply_console_information(&i, defaults()), defaults());
}

#[test]
fn main_requires_both_offset_and_count_valid_to_apply_either() {
    let i = types(vec![entry("Main", Some(72), Some(0))]);
    assert_eq!(apply_console_information(&i, defaults()).main_stereo_channels, vec![70, 71]);
}

#[test]
fn main_with_count_two_or_more_becomes_stereo_pair() {
    let i = types(vec![entry("Main", Some(72), Some(2))]);
    assert_eq!(apply_console_information(&i, defaults()).main_stereo_channels, vec![72, 73]);
}

#[test]
fn main_with_count_one_becomes_single_channel() {
    let i = types(vec![entry("Main", Some(72), Some(1))]);
    assert_eq!(apply_console_information(&i, defaults()).main_stereo_channels, vec![72]);
}

#[test]
fn shortname_is_also_matched() {
    let i = types(vec![ChannelTypeEntry {
        name: String::new(),
        short_name: "BUS".to_string(),
        offset: Some(48),
        count: Some(12),
    }]);
    assert_eq!(apply_console_information(&i, defaults()).bus_channel_count, 12);
}

#[test]
fn underscore_is_a_word_character_so_bus_2_does_not_match() {
    let i = types(vec![entry("Bus_2", Some(50), Some(12))]);
    assert_eq!(apply_console_information(&i, defaults()), defaults());
}

#[test]
fn numeric_strings_are_coerced_like_js_number() {
    // `"64"`, `"50"` and `"12"` read as the numbers they spell.
    let i = info(Some(64), vec![entry("Bus", Some(50), Some(12))]);
    let result = apply_console_information(&i, defaults());
    assert_eq!(result.total_channels, 64);
    assert_eq!(result.bus_channel_start, 50);
    assert_eq!(result.bus_channel_count, 12);
}

#[test]
fn non_matching_types_are_ignored() {
    let i = types(vec![entry("Aux", Some(100), Some(5))]);
    assert_eq!(apply_console_information(&i, defaults()), defaults());
}

#[test]
fn entry_without_a_readable_offset_is_skipped() {
    let i = types(vec![entry("Bus", None, Some(12)), entry("Main", Some(72), Some(2))]);
    let result = apply_console_information(&i, defaults());
    assert_eq!(result.bus_channel_count, 16);
    assert_eq!(result.main_stereo_channels, vec![72, 73]);
}

#[test]
fn input_without_zero_offset_candidate_takes_none() {
    let i = types(vec![entry("Input", Some(8), Some(4)), entry("Ch", Some(2), Some(6))]);
    assert_eq!(apply_console_information(&i, defaults()).input_channel_count, 32);
}

#[test]
fn word_match_is_case_insensitive_and_needs_boundaries() {
    let i = types(vec![entry("MAIN LR", Some(60), Some(2)), entry("Buses", Some(10), Some(3))]);
    let result = apply_console_information(&i, defaults());
    assert_eq!(result.main_stereo_channels, vec![60, 61]);
    assert_eq!(result.bus_channel_count, 16);
}

fn jnum(n: i64) -> c1_bridge::json::JsonValue {
    c1_bridge::json::JsonValue::Number(c1_bridge::json::i64_number(n))
}

fn jstr(s: &str) -> c1_bridge::json::JsonValue {
    c1_bridge::json::JsonValue::Str(s.to_string())
}

fn jobj(members: Vec<(&str, c1_bridge::json::JsonValue)>) -> c1_bridge::json::JsonValue {
    c1_bridge::json::JsonValue::Object(members.into_iter().map(|(k, v)| (k.to_string(), v)).collect())
}

fn int_of(v: &c1_bridge::json::JsonValue) -> Option<i64> {
    match v {
        c1_bridge::json::JsonValue::Number(n) => match n.kind {
            c1_bridge::json::NumberKind::PosInt(u) => Some(u as i64),
            c1_bridge::json::NumberKind::NegInt(i) => Some(i),
            c1_bridge::json::NumberKind::Float => None,
        },
        _ => None,
    }
}

#[test]
fn reads_the_console_information_body() {
    let body = jobj(vec![
        ("totalChannels", jnum(40)),
        (
            "channelTypes",
            c1_bridge::json::JsonValue::Array(vec![
                jobj(vec![("name", jstr("Input")), ("shortName", jstr("Ch")), ("offset", jnum(0)), ("count", jnum(8))]),
                jobj(vec![("name", jnum(3)), ("offset", jstr("24"))]),
            ]),
        ),
    ]);
    let info = c1_bridge::console_information::read_console_information(&body, int_of);
    assert!(info.is_object);
    assert_eq!(info.total_channels, Some(40));
    assert_eq!(info.channel_types.len(), 2);
    assert_eq!(info.channel_types[0].name, "Input");
    assert_eq!(info.channel_types[0].short_name, "Ch");
    assert_eq!(info.channel_types[0].offset, Some(0));
    assert_eq!(info.channel_types[0].count, Some(8));
    assert_eq!(info.channel_types[1].name, "");
    assert_eq!(info.channel_types[1].offset, None);
    assert_eq!(info.channel_types[1].count, None);
    let not_object = c1_bridge::console_information::read_console_information(&jnum(1), int_of);
    assert!(!not_object.is_object);
    assert!(not_object.channel_types.is_empty());
}
