//! Verified core of the Console 1 Fader ↔ Mixing Station bridge.

pub mod bare_update_queue;
pub mod bridge_core;
pub mod channel_data_message;
pub mod config;
pub mod console1_status_bank;
pub mod console_information;
pub mod console_track;
pub mod control_messages;
pub mod dsp_field_metadata;
pub mod echo_suppression;
pub mod events;
pub mod json;
pub mod keyed;
pub mod lifecycle;
pub mod metering2_message;
pub mod metering_utils;
pub mod midi_color_utils;
pub mod midi_dsp_dispatch;
pub mod midi_io;
pub mod midi_mixer_dispatch;
pub mod midi_track_dispatch;
pub mod ms_dispatch;
pub mod ms_param_apply;
pub mod ms_requests;
pub mod ms_write_queue;
pub mod runtime;
pub mod runtime_rules;
pub mod send_mapping;
pub mod sends_mode;
pub mod status_monitor;
pub mod sysex;
pub mod text;
pub mod track_cache;
pub mod track_id;
pub mod track_layout;
pub mod update_queue;
pub mod value_coercion;
pub mod ws_engine;
