//! The bridge runtime's own rules that need no I/O: its commands, the default layout and
//! colors it builds from the configuration and the console architecture, the per-slot
//! overrides applied to Mixing Station values, and the echo-suppression key of a write.

use crate::channel_data_message::MsFormat;
use crate::config::{BridgeConfigPatch, RuntimeConfig};
use crate::console_information::ConsoleArchitecture;
use crate::json::{JsonNumber, JsonValue, NumberKind, i64_number, int_json};
use crate::dsp_field_metadata::F64_HALF_BITS;
use crate::status_monitor::StatusSnapshot;
use crate::text::{append_chars, chars_of, decimal, decimal_chars, owned, str_eq, string_from_chars};
use crate::track_cache::DefaultTrackColors;
use crate::track_layout::{LayoutSlot, LayoutSlotKind, TrackLayoutParams, build_track_layout, expected_layout};
use crate::value_coercion::{stereo_display_name, trim_stereo_suffix_from_name};
use vstd::prelude::*;
use vstd::string::*;

verus! {

/// A command to the running bridge.
#[derive(Debug)]
pub enum BridgeCommand {
    /// Enter `running`, first applying the patch when there is one.
    Start(Option<BridgeConfigPatch>),
    /// Enter `standby`.
    Stop,
    /// Apply a configuration patch without a lifecycle change.
    ConfigApply(BridgeConfigPatch),
    /// A fresh live-status snapshot to show on the status bank.
    StatusUpdate(StatusSnapshot),
    /// Run the shutdown sequence and stop.
    Shutdown,
}

/// The status indicator colors: off blue, on green; the Start/Stop slot orange/violet.
pub const STATUS_OFF_COLOR: u32 = 0x0000ff;
pub const STATUS_ON_COLOR: u32 = 0x00ff00;
pub const START_COLOR: u32 = 0xff841b;
pub const STOP_COLOR: u32 = 0x5a28f8;

/// The default track colors: the configured bus and Main colors, and the fixed status
/// and Start/Stop colors.
pub open spec fn config_colors(config: RuntimeConfig) -> DefaultTrackColors {
    DefaultTrackColors {
        bus_color: config.console1_bus_color,
        main_color: config.console1_main_color,
        status_off_color: STATUS_OFF_COLOR,
        status_on_color: STATUS_ON_COLOR,
        start_color: START_COLOR,
        stop_color: STOP_COLOR,
    }
}

/// The default track colors of a configuration (see [`config_colors`]).
pub fn default_colors(config: &RuntimeConfig) -> (res: DefaultTrackColors)
    ensures
        res == config_colors(*config),
{
    DefaultTrackColors {
        bus_color: config.console1_bus_color,
        main_color: config.console1_main_color,
        status_off_color: STATUS_OFF_COLOR,
        status_on_color: STATUS_ON_COLOR,
        start_color: START_COLOR,
        stop_color: STOP_COLOR,
    }
}

/// The architecture's counts fit a layout: non-negative and small enough to bank.
pub open spec fn layout_sized(a: ConsoleArchitecture) -> bool {
    &&& 0 <= a.input_channel_count <= usize::MAX / 4
    &&& 0 <= a.bus_channel_count <= usize::MAX / 4
    &&& 0 <= a.bus_channel_start
    &&& a.bus_channel_start + a.bus_channel_count <= usize::MAX
}

/// The Main channels as layout channel indices (each `as usize`).
pub open spec fn main_channels_of(a: ConsoleArchitecture) -> Seq<usize> {
    a.main_stereo_channels@.map_values(|c: i64| c as usize)
}

/// Builds the full Console 1 layout from the configured input/bus order and the console
/// architecture (see [`build_track_layout`]).
pub fn build_default_layout(config: &RuntimeConfig, architecture: &ConsoleArchitecture) -> (res: Vec<LayoutSlot>)
    requires
        layout_sized(*architecture),
    ensures
        layout_matches(config, architecture, res@),
{
    let mut main: Vec<usize> = Vec::new();
    let mut i: usize = 0;
    while i < architecture.main_stereo_channels.len()
        invariant
            i <= architecture.main_stereo_channels@.len(),
            main@ == main_channels_of(*architecture).subrange(0, i as int),
        decreases architecture.main_stereo_channels.len() - i,
    {
        main.push(architecture.main_stereo_channels[i] as usize);
        assert(main_channels_of(*architecture).subrange(0, i + 1) =~= main_channels_of(*architecture).subrange(0, i as int)
            .push(architecture.main_stereo_channels@[i as int] as usize));
        i = i + 1;
    }
    assert(main_channels_of(*architecture).subrange(0, main_channels_of(*architecture).len() as int) =~= main_channels_of(*architecture));
    let params = TrackLayoutParams {
        input_track_order: config.input_track_order.as_slice(),
        bus_track_order: config.bus_track_order.as_slice(),
        input_channel_count: architecture.input_channel_count as usize,
        bus_channel_start: architecture.bus_channel_start as usize,
        bus_channel_count: architecture.bus_channel_count as usize,
        main_stereo_channels: main.as_slice(),
    };
    let slots = build_track_layout(&params);
    assert(expected_layout(params, slots@));
    slots
}

/// `slots` is the layout built from the configured order and the architecture.
pub open spec fn layout_matches(config: &RuntimeConfig, architecture: &ConsoleArchitecture, slots: Seq<LayoutSlot>) -> bool {
    exists|params: TrackLayoutParams| {
        &&& params.input_track_order@ == config.input_track_order@
        &&& params.bus_track_order@ == config.bus_track_order@
        &&& params.input_channel_count == architecture.input_channel_count as usize
        &&& params.bus_channel_start == architecture.bus_channel_start as usize
        &&& params.bus_channel_count == architecture.bus_channel_count as usize
        &&& params.main_stereo_channels@ == main_channels_of(*architecture)
        &&& #[trigger] expected_layout(params, slots)
    }
}

/// What the per-slot overrides do to a Mixing Station value before it is applied.
pub enum SlotOverride {
    /// The value is applied as it came.
    Keep,
    /// The value is replaced by this text.
    Text(Seq<char>),
    /// The value is replaced by this number.
    Number(JsonNumber),
    /// The update is not applied at all.
    Drop,
}

/// The per-slot overrides: Main's name is always `Main` and a stereo pair's name loses
/// its side markers; Main and Bus colors are the configured Console 1 ones; a pan-locked
/// slot ignores pan when it is a stereo pair and is held centred otherwise.
pub open spec fn slot_override(slot: LayoutSlot, param_path: Seq<char>, value: JsonValue, main_color: u32, bus_color: u32) -> SlotOverride {
    if param_path == "cfg.name"@ {
        if slot.kind == LayoutSlotKind::Main {
            SlotOverride::Text("Main"@)
        } else if slot.pan_locked && slot.ms_channels@.len() == 2 {
            match value {
                JsonValue::Str(s) => SlotOverride::Text(stereo_display_name(s@, vstd::utf8::encode_utf8(s@).len() as usize as int)),
                _ => SlotOverride::Keep,
            }
        } else {
            SlotOverride::Keep
        }
    } else if param_path == "cfg.color"@ {
        if slot.kind == LayoutSlotKind::Main {
            SlotOverride::Number(int_json(main_color as int))
        } else if slot.kind == LayoutSlotKind::Bus {
            SlotOverride::Number(int_json(bus_color as int))
        } else {
            SlotOverride::Keep
        }
    } else if param_path == "mix.pan"@ && slot.pan_locked {
        if slot.ms_channels@.len() == 2 {
            SlotOverride::Drop
        } else {
            SlotOverride::Number(JsonNumber { kind: NumberKind::Float, f64_bits: F64_HALF_BITS })
        }
    } else {
        SlotOverride::Keep
    }
}

/// The value to apply for a Mixing Station update of `param_path` on `slot` after the
/// per-slot overrides (see [`slot_override`]); `None` when the update is not applied.
pub fn apply_slot_overrides(slot: &LayoutSlot, param_path: &str, value: JsonValue, config: &RuntimeConfig) -> (res: Option<JsonValue>)
    ensures
        match slot_override(*slot, param_path@, value, config.console1_main_color, config.console1_bus_color) {
            SlotOverride::Keep => res == Some(value),
            SlotOverride::Text(t) => res matches Some(v) && v.spec_as_str() == Some(t),
            SlotOverride::Number(n) => res == Some(JsonValue::Number(n)),
            SlotOverride::Drop => res is None,
        },
{
    if str_eq(param_path, "cfg.name") {
        if slot.kind == LayoutSlotKind::Main {
            proof {
                reveal_strlit("Main");
            }
            return Some(JsonValue::Str(owned("Main")));
        }
        if slot.pan_locked && slot.ms_channels.len() == 2 {
            return match value {
                JsonValue::Str(s) => Some(JsonValue::Str(trim_stereo_suffix_from_name(s.as_str()))),
                other => Some(other),
            };
        }
        return Some(value);
    }
    if str_eq(param_path, "cfg.color") {
        if slot.kind == LayoutSlotKind::Main {
            return Some(JsonValue::Number(i64_number(config.console1_main_color as i64)));
        }
        if slot.kind == LayoutSlotKind::Bus {
            return Some(JsonValue::Number(i64_number(config.console1_bus_color as i64)));
        }
        return Some(value);
    }
    if str_eq(param_path, "mix.pan") && slot.pan_locked {
        if slot.ms_channels.len() == 2 {
            return None;
        }
        return Some(JsonValue::Number(JsonNumber { kind: NumberKind::Float, f64_bits: F64_HALF_BITS }));
    }
    Some(value)
}

/// The name of a value format on the wire.
pub open spec fn format_name(format: MsFormat) -> Seq<char> {
    match format {
        MsFormat::Val => "val"@,
        MsFormat::Norm => "norm"@,
    }
}

/// The name of a value format on the wire: `val` or `norm`.
pub fn ms_format_name(format: MsFormat) -> (res: &'static str)
    ensures
        res@ == format_name(format),
{
    match format {
        MsFormat::Val => "val",
        MsFormat::Norm => "norm",
    }
}

/// The echo-suppression key of a channel parameter: `ch.<n>.<path>|<format>`.
pub open spec fn echo_key(channel_index: u64, param_path: Seq<char>, format: MsFormat) -> Seq<char> {
    "ch."@ + decimal(channel_index as nat) + "."@ + param_path + "|"@ + format_name(format)
}

/// Builds the echo-suppression key of a channel parameter (see [`echo_key`]).
pub fn build_echo_key(channel_index: u64, param_path: &str, format: MsFormat) -> (res: String)
    ensures
        res@ == echo_key(channel_index, param_path@, format),
{
    let mut out = chars_of("ch.");
    let d = decimal_chars(channel_index);
    append_chars(&mut out, d.as_slice());
    out.push('.');
    let p = chars_of(param_path);
    append_chars(&mut out, p.as_slice());
    out.push('|');
    let f = chars_of(ms_format_name(format));
    append_chars(&mut out, f.as_slice());
    let r = string_from_chars(out.as_slice());
    proof {
        reveal_strlit(".");
        reveal_strlit("|");
        assert(r@ =~= echo_key(channel_index, param_path@, format));
    }
    r
}

/// The key an inbound Mixing Station update of channel `ch` is checked against is the key
/// the bridge's own write of that parameter is recorded under: the write's path, `|`, and
/// its format.
pub proof fn lemma_echo_key_is_write_key(ch: usize, param_path: Seq<char>, format: MsFormat)
    ensures
        echo_key(ch as u64, param_path, format) == crate::midi_mixer_dispatch::channel_path(ch, param_path) + "|"@
            + format_name(format),
{
    assert(echo_key(ch as u64, param_path, format) =~= crate::midi_mixer_dispatch::channel_path(ch, param_path) + "|"@
        + format_name(format));
}

} // verus!
