//! Console 1 control-channel messages (RESET/ENABLE/DISABLE/handshake ack, activeMeters):
//! reading them off a decoded SysEx payload, and deciding what each one calls for.

use crate::json::JsonValue;
use crate::lifecycle::Lifecycle;
use crate::text::str_eq;
use vstd::prelude::*;

verus! {

#[derive(Debug, Clone, Copy, PartialEq, Eq, Structural)]
pub enum ParsedControlMessage {
    Reset,
    Enable,
    Disable,
    HandshakeAck,
}

/// The `cmd` member's text, when it is a string.
pub open spec fn cmd_text(parsed: JsonValue) -> Option<Seq<char>> {
    match parsed.spec_get("cmd"@) {
        Some(c) => c.spec_as_str(),
        None => None,
    }
}

/// Whether `handshake.ack` is the literal `true`.
pub open spec fn is_handshake_ack(parsed: JsonValue) -> bool {
    match parsed.spec_get("handshake"@) {
        Some(h) => match h.spec_get("ack"@) {
            Some(a) => a.is_true(),
            None => false,
        },
        None => false,
    }
}

/// The control message a payload carries: a recognised `cmd` wins; otherwise a handshake
/// acknowledgement; otherwise none.
pub open spec fn control_message_of(parsed: JsonValue) -> Option<ParsedControlMessage> {
    let cmd = cmd_text(parsed);
    if cmd == Some("RESET"@) {
        Some(ParsedControlMessage::Reset)
    } else if cmd == Some("ENABLE"@) {
        Some(ParsedControlMessage::Enable)
    } else if cmd == Some("DISABLE"@) {
        Some(ParsedControlMessage::Disable)
    } else if is_handshake_ack(parsed) {
        Some(ParsedControlMessage::HandshakeAck)
    } else {
        None
    }
}

/// Parse a decoded SysEx payload's control-channel shape, if it has one.
pub fn parse_control_message(parsed: &JsonValue) -> (res: Option<ParsedControlMessage>)
    ensures
        res == control_message_of(*parsed),
{
    if let Some(c) = parsed.get("cmd") {
        if let Some(cmd) = c.as_str() {
            if str_eq(cmd, "RESET") {
                return Some(ParsedControlMessage::Reset);
            }
            if str_eq(cmd, "ENABLE") {
                return Some(ParsedControlMessage::Enable);
            }
            if str_eq(cmd, "DISABLE") {
                return Some(ParsedControlMessage::Disable);
            }
        }
    }
    if let Some(h) = parsed.get("handshake") {
        if let Some(a) = h.get("ack") {
            if a.as_bool() == Some(true) {
                return Some(ParsedControlMessage::HandshakeAck);
            }
        }
    }
    None
}

/// The texts of the string items of `items`, in order; other items are skipped.
pub open spec fn string_items(items: Seq<JsonValue>) -> Seq<Seq<char>>
    decreases items.len(),
{
    if items.len() == 0 {
        Seq::empty()
    } else {
        let rest = string_items(items.drop_last());
        match items.last().spec_as_str() {
            Some(s) => rest.push(s),
            None => rest,
        }
    }
}

/// The `activeMeters` list: `None` unless the member is present and an array.
pub open spec fn active_meters_of(parsed: JsonValue) -> Option<Seq<Seq<char>>> {
    match parsed.spec_get("activeMeters"@) {
        Some(JsonValue::Array(items)) => Some(string_items(items@)),
        _ => None,
    }
}

/// Parse a payload's `activeMeters` field: the track IDs hardware currently wants metered.
/// Non-string entries are skipped.
pub fn parse_active_meters(parsed: &JsonValue) -> (res: Option<Vec<String>>)
    ensures
        match res {
            Some(ids) => active_meters_of(*parsed) == Some(ids@.map_values(|s: String| s@)),
            None => active_meters_of(*parsed) is None,
        },
{
    let field = match parsed.get("activeMeters") {
        Some(f) => f,
        None => return None,
    };
    let arr = match field.as_array() {
        Some(a) => a,
        None => return None,
    };
    let mut out: Vec<String> = Vec::new();
    let mut i: usize = 0;
    while i < arr.len()
        invariant
            i <= arr@.len(),
            out@.map_values(|s: String| s@) == string_items(arr@.subrange(0, i as int)),
        decreases arr.len() - i,
    {
        assert(arr@.subrange(0, i + 1).drop_last() =~= arr@.subrange(0, i as int));
        if let Some(s) = arr[i].as_str() {
            let owned = s.to_owned();
            out.push(owned);
            assert(out@.map_values(|s: String| s@) =~= string_items(arr@.subrange(0, i as int)).push(s@));
        }
        i = i + 1;
    }
    assert(arr@.subrange(0, arr@.len() as int) =~= arr@);
    Some(out)
}

#[derive(Debug, Clone, Copy, PartialEq, Eq, Structural)]
pub enum ControlAction {
    /// Disable OSD then resend the handshake.
    ResendHandshake,
    /// Force a full Console 1 re-sync (only meaningful while running).
    ScheduleFullResync,
    /// Re-affirm just the status/Start bank (standby's substitute for a full re-sync).
    ReaffirmStatusBank,
    EnableOsd,
    DisableOsd,
    /// Only reachable via a handshake ack while running before the initial dump.
    FinalizeInitialization,
}

/// The actions a control message calls for, in execution order.
pub open spec fn control_actions(msg: ParsedControlMessage, lifecycle: Lifecycle, has_sent_initial_dump: bool) -> Seq<ControlAction> {
    match msg {
        ParsedControlMessage::Reset => seq![
            ControlAction::DisableOsd,
            ControlAction::ResendHandshake,
            if lifecycle == Lifecycle::Running { ControlAction::ScheduleFullResync } else { ControlAction::ReaffirmStatusBank },
        ],
        ParsedControlMessage::Enable => seq![ControlAction::EnableOsd],
        ParsedControlMessage::Disable => seq![ControlAction::DisableOsd],
        ParsedControlMessage::HandshakeAck => if !has_sent_initial_dump && lifecycle == Lifecycle::Running {
            seq![ControlAction::EnableOsd, ControlAction::FinalizeInitialization]
        } else {
            seq![ControlAction::EnableOsd]
        },
    }
}

/// Decide what actions a parsed control message implies, given the current lifecycle and
/// whether the initial track dump has already been sent. The actions come in the order
/// they must be executed.
pub fn decide_control_actions(msg: ParsedControlMessage, lifecycle: Lifecycle, has_sent_initial_dump: bool) -> (res: Vec<ControlAction>)
    ensures
        res@ == control_actions(msg, lifecycle, has_sent_initial_dump),
{
    match msg {
        ParsedControlMessage::Reset => {
            let mut actions = vec![ControlAction::DisableOsd, ControlAction::ResendHandshake];
            actions.push(if lifecycle == Lifecycle::Running {
                ControlAction::ScheduleFullResync
            } else {
                ControlAction::ReaffirmStatusBank
            });
            assert(actions@ =~= control_actions(msg, lifecycle, has_sent_initial_dump));
            actions
        },
        ParsedControlMessage::Enable => {
            let actions = vec![ControlAction::EnableOsd];
            assert(actions@ =~= control_actions(msg, lifecycle, has_sent_initial_dump));
            actions
        },
        ParsedControlMessage::Disable => {
            let actions = vec![ControlAction::DisableOsd];
            assert(actions@ =~= control_actions(msg, lifecycle, has_sent_initial_dump));
            actions
        },
        ParsedControlMessage::HandshakeAck => {
            let mut actions = vec![ControlAction::EnableOsd];
            if !has_sent_initial_dump && lifecycle == Lifecycle::Running {
                actions.push(ControlAction::FinalizeInitialization);
            }
            assert(actions@ =~= control_actions(msg, lifecycle, has_sent_initial_dump));
            actions
        },
    }
}

} // verus!
