use c1_bridge::control_messages::{decide_control_actions, parse_active_meters, parse_control_message, ControlAction, ParsedControlMessage};
use c1_bridge::json::{i64_number, JsonValue};
use c1_bridge::lifecycle::Lifecycle;

#[test]
fn reset_while_running_schedules_full_resync() {
    let actions = decide_control_actions(ParsedControlMessage::Reset, Lifecycle::Running, true);
    assert_eq!(
        actions,
        vec![
            ControlAction::DisableOsd,
            ControlAction::ResendHandshake,
            ControlAction::ScheduleFullResync
        ]
    );
}

#[test]
fn reset_while_standby_reaffirms_status_bank_instead() {
    let actions = decide_control_actions(ParsedControlMessage::Reset, Lifecycle::Standby, true);
    assert_eq!(
        actions,
        vec![
            ControlAction::DisableOsd,
            ControlAction::ResendHandshake,
            ControlAction::ReaffirmStatusBank
        ]
    );
}

#[test]
fn enable_just_enables_osd() {
    assert_eq!(
        decide_control_actions(ParsedControlMessage::Enable, Lifecycle::Standby, true),
        vec![ControlAction::EnableOsd]
    );
}

#[test]
fn disable_just_disables_osd() {
    assert_eq!(
        decide_control_actions(ParsedControlMessage::Disable, Lifecycle::Running, true),
        vec![ControlAction::DisableOsd]
    );
}

#[test]
fn handshake_ack_while_running_and_dump_not_yet_sent_finalizes_init() {
    let actions = decide_control_actions(ParsedControlMessage::HandshakeAck, Lifecycle::Running, false);
    assert_eq!(
        actions,
        vec![ControlAction::EnableOsd, ControlAction::FinalizeInitialization]
    );
}

#[test]
fn handshake_ack_while_dump_already_sent_does_not_refinalize() {
    let actions = decide_control_actions(ParsedControlMessage::HandshakeAck, Lifecycle::Running, true);
    assert_eq!(actions, vec![ControlAction::EnableOsd]);
}

#[test]
fn handshake_ack_while_standby_does_not_finalize_even_if_dump_not_sent() {
    let actions = decide_control_actions(ParsedControlMessage::HandshakeAck, Lifecycle::Standby, false);
    assert_eq!(actions, vec![ControlAction::EnableOsd]);
}

fn s(x: &str) -> JsonValue {
    JsonValue::Str(x.to_string())
}
fn obj(pairs: Vec<(&str, JsonValue)>) -> JsonValue {
    JsonValue::Object(pairs.into_iter().map(|(k, v)| (k.to_string(), v)).collect())
}
fn cmd(c: &str) -> JsonValue {
    obj(vec![("cmd", s(c))])
}
fn ack(b: bool) -> JsonValue {
    obj(vec![("ack", JsonValue::Bool(b))])
}

#[test]
fn parse_reset_command() {
    assert_eq!(parse_control_message(&cmd("RESET")), Some(ParsedControlMessage::Reset));
}

#[test]
fn parse_enable_and_disable_commands() {
    assert_eq!(parse_control_message(&cmd("ENABLE")), Some(ParsedControlMessage::Enable));
    assert_eq!(parse_control_message(&cmd("DISABLE")), Some(ParsedControlMessage::Disable));
}

#[test]
fn parse_unknown_cmd_string_returns_none() {
    assert_eq!(parse_control_message(&cmd("SOMETHING_ELSE")), None);
}

#[test]
fn unrecognized_cmd_falls_through_to_handshake_check() {
    let msg = obj(vec![("cmd", s("SOMETHING_ELSE")), ("handshake", ack(true))]);
    assert_eq!(parse_control_message(&msg), Some(ParsedControlMessage::HandshakeAck));
}

#[test]
fn parse_handshake_ack_true() {
    assert_eq!(parse_control_message(&obj(vec![("handshake", ack(true))])), Some(ParsedControlMessage::HandshakeAck));
}

#[test]
fn parse_handshake_without_ack_true_is_not_a_control_message() {
    assert_eq!(parse_control_message(&obj(vec![("handshake", ack(false))])), None);
    assert_eq!(parse_control_message(&obj(vec![("handshake", obj(vec![]))])), None);
}

#[test]
fn parse_track_update_message_is_not_a_control_message() {
    let msg = obj(vec![("trackId", s("ABCD1234")), ("volume", JsonValue::Number(i64_number(0)))]);
    assert_eq!(parse_control_message(&msg), None);
}

#[test]
fn parse_active_meters_extracts_track_id_list() {
    let msg = obj(vec![("activeMeters", JsonValue::Array(vec![s("ABCD1234"), s("EFGH5678")]))]);
    assert_eq!(parse_active_meters(&msg), Some(vec!["ABCD1234".to_string(), "EFGH5678".to_string()]));
}

#[test]
fn parse_active_meters_handles_empty_array() {
    let msg = obj(vec![("activeMeters", JsonValue::Array(vec![]))]);
    assert_eq!(parse_active_meters(&msg), Some(vec![]));
}

#[test]
fn parse_active_meters_returns_none_when_field_absent() {
    assert_eq!(parse_active_meters(&cmd("RESET")), None);
}

#[test]
fn parse_active_meters_skips_non_string_entries() {
    let msg = obj(vec![(
        "activeMeters",
        JsonValue::Array(vec![s("ABCD1234"), JsonValue::Number(i64_number(42)), JsonValue::Null, s("EFGH5678")]),
    )]);
    assert_eq!(parse_active_meters(&msg), Some(vec!["ABCD1234".to_string(), "EFGH5678".to_string()]));
}

#[test]
fn parse_active_meters_returns_none_when_field_is_not_an_array() {
    assert_eq!(parse_active_meters(&obj(vec![("activeMeters", s("not-an-array"))])), None);
}

#[test]
fn active_meters_can_accompany_a_handshake_ack() {
    let msg = obj(vec![("handshake", ack(true)), ("activeMeters", JsonValue::Array(vec![s("ABCD1234")]))]);
    assert_eq!(parse_control_message(&msg), Some(ParsedControlMessage::HandshakeAck));
    assert_eq!(parse_active_meters(&msg), Some(vec!["ABCD1234".to_string()]));
}

#[test]
fn non_object_message_is_not_a_control_message() {
    assert_eq!(parse_control_message(&s("RESET")), None);
    assert_eq!(parse_active_meters(&JsonValue::Null), None);
}
