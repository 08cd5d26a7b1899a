//! The Console 1 Fader's status/Start bank (bank 0): its fixed slot list, the Start
//! slot's Start/Stop display, and how a selection on it becomes a hardware trigger.

use crate::json::JsonValue;
use crate::lifecycle::Lifecycle;
use vstd::prelude::*;

verus! {

/// A single status indicator's identity: the field name used by the live status snapshot
/// and its display label.
#[derive(Debug, Clone, Copy, PartialEq, Eq)]
pub struct StatusIndicator {
    pub key: &'static str,
    pub label: &'static str,
}

/// Total slot count of the fixed status/Start bank.
pub const STATUS_BANK_SIZE: usize = 10;

/// 0-based `object_id` of the Start slot: the last slot of bank 0.
pub const START_SLOT_OBJECT_ID: usize = 9;

/// Number of status indicators in the first group, before the first spacer.
pub const STATUS_BANK_FIRST_GROUP_SIZE: usize = 3;

/// The `i`-th of the 7 status indicators, in topbar order.
pub open spec fn indicator(i: int) -> StatusIndicator {
    if i == 0 {
        StatusIndicator { key: "ipad", label: "iPad" }
    } else if i == 1 {
        StatusIndicator { key: "spdSxPro", label: "SPD-SX PRO" }
    } else if i == 2 {
        StatusIndicator { key: "midiMaestro", label: "MIDI Maestro" }
    } else if i == 3 {
        StatusIndicator { key: "bomeMtp", label: "Bome MIDI" }
    } else if i == 4 {
        StatusIndicator { key: "mixingStation", label: "Mixing Station" }
    } else if i == 5 {
        StatusIndicator { key: "console1Osd", label: "C1 OSD" }
    } else {
        StatusIndicator { key: "abletonLive", label: "Ableton" }
    }
}

/// The 7 status indicators, in topbar order.
pub fn status_bank_indicators() -> (res: [StatusIndicator; 7])
    ensures
        forall|i: int| 0 <= i < 7 ==> res@[i] == indicator(i),
{
    [
        StatusIndicator { key: "ipad", label: "iPad" },
        StatusIndicator { key: "spdSxPro", label: "SPD-SX PRO" },
        StatusIndicator { key: "midiMaestro", label: "MIDI Maestro" },
        StatusIndicator { key: "bomeMtp", label: "Bome MIDI" },
        StatusIndicator { key: "mixingStation", label: "Mixing Station" },
        StatusIndicator { key: "console1Osd", label: "C1 OSD" },
        StatusIndicator { key: "abletonLive", label: "Ableton" },
    ]
}

/// What kind of slot a [`StatusBankSlot`] is.
#[derive(Debug, Clone, Copy, PartialEq, Eq)]
pub enum SlotKind {
    /// A status indicator slot.
    Status { key: &'static str, label: &'static str },
    Empty,
    Start,
}

/// A single slot of the fixed status/Start bank. These slots have no Mixing Station
/// channel: `ms_channels` is always empty and `ms_primary` always `None`.
#[derive(Debug, Clone, PartialEq, Eq)]
pub struct StatusBankSlot {
    pub object_id: usize,
    pub kind: SlotKind,
    pub ms_channels: Vec<u32>,
    pub ms_primary: Option<u32>,
}

/// Start/Stop toggle display: the label and color to show on the Start slot.
#[derive(Debug, Clone, Copy, PartialEq, Eq)]
pub struct StartSlotDisplay {
    pub name: &'static str,
    pub color: u32,
}

/// A hardware trigger event implied by a Start-slot `selected` field going `true`.
#[derive(Debug, Clone, Copy, PartialEq, Eq, Structural)]
pub enum HardwareTrigger {
    Start,
    Stop,
}

/// The kind of slot `i` of the status bank: indicators 0..3, a spacer, indicators 3..7,
/// a spacer, then Start.
pub open spec fn status_slot_kind(i: int) -> SlotKind {
    if i < 3 {
        SlotKind::Status { key: indicator(i).key, label: indicator(i).label }
    } else if i == 3 {
        SlotKind::Empty
    } else if i < 8 {
        SlotKind::Status { key: indicator(i - 1).key, label: indicator(i - 1).label }
    } else if i == 8 {
        SlotKind::Empty
    } else {
        SlotKind::Start
    }
}

fn bank_slot(object_id: usize, kind: SlotKind) -> (res: StatusBankSlot)
    ensures
        res.object_id == object_id,
        res.kind == kind,
        res.ms_channels@.len() == 0,
        res.ms_primary is None,
{
    StatusBankSlot { object_id, kind, ms_channels: Vec::new(), ms_primary: None }
}

/// Build the fixed status/Start bank: the first 3 indicators, an empty spacer, the
/// remaining 4 indicators, another empty spacer, then the Start slot as the 10th slot.
pub fn build_status_bank_slots() -> (slots: Vec<StatusBankSlot>)
    ensures
        slots@.len() == STATUS_BANK_SIZE,
        forall|i: int| 0 <= i < 10 ==> {
            &&& #[trigger] slots@[i].object_id == i
            &&& slots@[i].kind == status_slot_kind(i)
            &&& slots@[i].ms_channels@.len() == 0
            &&& slots@[i].ms_primary is None
        },
{
    let indicators = status_bank_indicators();
    let mut slots: Vec<StatusBankSlot> = Vec::new();
    let mut i: usize = 0;
    while i < 10
        invariant
            i <= 10,
            forall|k: int| 0 <= k < 7 ==> indicators@[k] == indicator(k),
            slots@.len() == i,
            forall|k: int| 0 <= k < i ==> {
                &&& #[trigger] slots@[k].object_id == k
                &&& slots@[k].kind == status_slot_kind(k)
                &&& slots@[k].ms_channels@.len() == 0
                &&& slots@[k].ms_primary is None
            },
        decreases 10 - i,
    {
        let kind = if i < STATUS_BANK_FIRST_GROUP_SIZE {
            let ind = indicators[i];
            SlotKind::Status { key: ind.key, label: ind.label }
        } else if i == 3 {
            SlotKind::Empty
        } else if i < 8 {
            let ind = indicators[i - 1];
            SlotKind::Status { key: ind.key, label: ind.label }
        } else if i == 8 {
            SlotKind::Empty
        } else {
            SlotKind::Start
        };
        slots.push(bank_slot(i, kind));
        i = i + 1;
    }
    slots
}

/// Start/Stop toggle display for the Start slot, driven by the current lifecycle: while
/// running it offers "Stop" in `stop_color`, in standby "Start" in `main_color`.
pub fn start_slot_display_for(lifecycle: Lifecycle, main_color: u32, stop_color: u32) -> (res: StartSlotDisplay)
    ensures
        lifecycle == Lifecycle::Running ==> res == (StartSlotDisplay { name: "Stop", color: stop_color }),
        lifecycle == Lifecycle::Standby ==> res == (StartSlotDisplay { name: "Start", color: main_color }),
{
    match lifecycle {
        Lifecycle::Running => StartSlotDisplay { name: "Stop", color: stop_color },
        Lifecycle::Standby => StartSlotDisplay { name: "Start", color: main_color },
    }
}

/// The trigger a Start-slot `selected` value implies: only a literal JSON `true` is a
/// trigger, and it means Stop while running, Start in standby.
pub fn hardware_trigger_type_for(lifecycle: Lifecycle, selected_value: &JsonValue) -> (res: Option<HardwareTrigger>)
    ensures
        !selected_value.is_true() ==> res is None,
        selected_value.is_true() ==> res == Some(
            if lifecycle == Lifecycle::Running { HardwareTrigger::Stop } else { HardwareTrigger::Start },
        ),
{
    if selected_value.as_bool() != Some(true) {
        return None;
    }
    Some(match lifecycle {
        Lifecycle::Running => HardwareTrigger::Stop,
        Lifecycle::Standby => HardwareTrigger::Start,
    })
}

/// On/off color for a status indicator slot: `on_color` only for a literal JSON `true`.
pub fn status_slot_color_for(is_on: &JsonValue, on_color: u32, off_color: u32) -> (res: u32)
    ensures
        res == if is_on.is_true() { on_color } else { off_color },
{
    if is_on.as_bool() == Some(true) {
        on_color
    } else {
        off_color
    }
}

} // verus!
