//! The bridge runtime's decisions, one event at a time: what the lifecycle, the Mixing
//! Station connection, the initialization window, the output queues and shutdown do with
//! each event, and which actions (sends, timers, connection changes) the host performs.

use crate::bare_update_queue::{BareUpdateEntry, BareUpdateQueue, bare_entries_view};
use crate::bridge_core::{BridgeCore, BareUpdate, CoreOutput, TrackUpdate, same_settings, track_ensured};
use crate::channel_data_message::{MsFormat, ParsedChannelDataMessage};
use crate::config::{RuntimeConfig, BridgeConfigPatch, ConfigApplyResult, apply_patch, patched_config};
use crate::send_mapping::{SendMapping, build_send_mapping, is_first_slot_map, mapped_send_index};
use crate::console_information::{ConsoleArchitecture, ConsoleInformation, apply_console_information, architecture_after,
    fits_main_pair, main_pair_fits};
use crate::console1_status_bank::START_SLOT_OBJECT_ID;
use crate::console_track::{ConsoleTrackFields, projects};
use crate::control_messages::{ControlAction, ParsedControlMessage, active_meters_of, control_actions, control_message_of,
    decide_control_actions, parse_active_meters, parse_control_message};
use crate::echo_suppression::{EchoSuppressionTracker, PendingWrites, RecentWrite, suppress_outcome};
use crate::events::BridgeEvent;
use crate::json::{JsonValue, copy_json, int_json, json_eq};
use crate::keyed::{pairs_view, upsert};
use crate::midi_mixer_dispatch::MsWrite;
use crate::midi_track_dispatch::MidiTrackOutput;
use crate::ms_dispatch::{fanned_out, replay_skipped, replay_step, replayed_all, tracks_ensured};
use crate::runtime_rules::{build_echo_key, echo_key, format_name, ms_format_name};
use crate::lifecycle::Lifecycle;
use crate::ms_requests::{MsRequest, MsRequestView, dsp_refresh, dsp_refresh_channels, dsp_refresh_requests,
    is_request_message, ms_request_message, refresh_channels, required_channel_subscriptions, required_subscriptions, requests_view};
use crate::ms_write_queue::{MsWriteQueue, build_ms_set_request, is_ms_set_request, write_entries_view};
use crate::track_cache::{TrackCache, TrackInfo, nameable_slot};
use crate::track_layout::{LayoutSlot, LayoutSlotKind, is_channel_index, object_ids_by_ms_channel};
use crate::runtime_rules::{build_default_layout, layout_matches, layout_sized};
use crate::bridge_core::layout_ok;
use crate::text::concat_views;
use crate::update_queue::{QueuedView, queued_after, QueuedUpdate, UpdateQueue, entries_view, entries_with_force};
use rand::rngs::StdRng;
use vstd::prelude::*;
use std::collections::{HashMap, HashSet};

verus! {

broadcast use vstd::std_specs::hash::group_hash_axioms;

/// Delay (ms) before a forced resync finalizes initialization.
pub const FORCE_RESYNC_FLUSH_DELAY_MS: u64 = 500;
/// Delay (ms) before a connect's initialization window closes on its own.
pub const INIT_FLUSH_TIMEOUT_MS: u64 = 2500;
/// How long (ms) a connect waits for the console-information reply.
pub const CONSOLE_INFO_TIMEOUT_MS: u64 = 600;

/// At most this many entries go in one `trackBatch` message.
pub const TRACK_BATCH_SIZE: usize = 100;

/// The views of `parts`.
pub open spec fn chunk_views<T>(parts: Seq<Vec<T>>) -> Seq<Seq<T>> {
    parts.map_values(|v: Vec<T>| v@)
}

/// `parts` are `all` cut in order into runs of [`TRACK_BATCH_SIZE`], the last one
/// possibly shorter (no runs for an empty `all`).
pub open spec fn in_chunks<T>(parts: Seq<Seq<T>>, all: Seq<T>) -> bool {
    &&& parts.len() == (all.len() + 99) / 100
    &&& forall|i: int| 0 <= i < parts.len() ==> #[trigger] parts[i] == all.subrange(100 * i,
        if 100 * i + 100 < all.len() { 100 * i + 100 } else { all.len() as int })
}

/// Cuts `all` into batches ([`in_chunks`]).
pub fn into_chunks<T>(all: Vec<T>) -> (res: Vec<Vec<T>>)
    ensures
        in_chunks(chunk_views(res@), all@),
{
    let ghost a = all@;
    let mut all = all;
    let total = all.len();
    let mut out: Vec<Vec<T>> = Vec::new();
    let mut cur: Vec<T> = Vec::new();
    let mut n: usize = 0;
    while all.len() > 0
        invariant
            total == a.len(),
            n + all@.len() == a.len(),
            all@ == a.subrange(n as int, a.len() as int),
            n == 100 * out@.len() + cur@.len(),
            cur@.len() < 100,
            cur@ == a.subrange(100 * out@.len() as int, n as int),
            forall|i: int| 0 <= i < out@.len() ==> #[trigger] out@[i]@ == a.subrange(100 * i, 100 * i + 100),
        decreases all.len(),
    {
        let ghost before = all@;
        let x = all.remove(0);
        assert(all@ =~= a.subrange(n + 1, a.len() as int));
        assert(x == a[n as int]) by {
            assert(before[0] == a[n as int]);
        }
        cur.push(x);
        assert(cur@ =~= a.subrange(100 * out@.len() as int, n + 1));
        n = n + 1;
        if cur.len() == TRACK_BATCH_SIZE {
            let mut full: Vec<T> = Vec::new();
            std::mem::swap(&mut full, &mut cur);
            out.push(full);
        }
    }
    if cur.len() > 0 {
        out.push(cur);
    }
    proof {
        let parts = chunk_views(out@);
        let len = a.len();
        assert((len + 99) / 100 == out@.len()) by {
            let k = if cur@.len() > 0 { out@.len() - 1 } else { out@.len() as int };
            assert(len == 100 * k + cur@.len());
        }
        assert forall|i: int| 0 <= i < parts.len() implies #[trigger] parts[i] == a.subrange(100 * i,
            if 100 * i + 100 < len { 100 * i + 100 } else { len as int }) by {
            assert(parts[i] == out@[i]@);
        }
    }
    out
}

/// Something that happened, handed to [`runtime_step`].
pub enum RuntimeEvent {
    /// Enter `running`, applying the patch first when there is one.
    Start(Option<BridgeConfigPatch>),
    /// Enter `standby`.
    Stop,
    /// Apply a config patch (only while running).
    ConfigApply(BridgeConfigPatch),
    /// A control action decided from a Console 1 control message.
    Control(ControlAction),
    /// The Mixing Station connection opened.
    WsConnected,
    /// The console-information reply arrived.
    ConsoleInformation(ConsoleInformation),
    /// The console-information reply did not arrive in time.
    ConsoleInfoTimeout,
    /// A channel-data update from Mixing Station, with the normalized input gain of its
    /// value, at `now` (µs).
    ChannelData { message: ParsedChannelDataMessage, gain_norm_bits: u64, now: u64 },
    /// What a Console 1 track message produced: track and bare updates and Mixing
    /// Station writes to queue, requests to send.
    TrackOutput(MidiTrackOutput),
    /// Track updates to queue with force flag `force` (the metering levels).
    QueueUpdates { updates: Vec<TrackUpdate>, force: bool },
    /// A Console 1 or Mixing Station message has been handled.
    InboundHandled,
    /// The connection was lost; the engine reconnects by itself.
    WsDisconnected,
    /// The connection engine ended on its own.
    WsEngineGone,
    /// The initialization timer fired.
    InitFlushDue,
    /// The track-update flush timer fired.
    FlushUpdates,
    /// The bare-update flush timer fired.
    FlushBare,
    /// The Mixing Station write flush timer fired, at `now` (µs).
    FlushWrites { now: u64 },
    /// Shut the bridge down.
    Shutdown,
}

/// What the host does for a step.
pub enum RuntimeAction {
    /// Send one SysEx JSON message to Console 1.
    SendSysexJson(JsonValue),
    /// Send one `trackBatch` message to Console 1 for each of these batches of entries.
    SendTrackBatches(Vec<Vec<JsonValue>>),
    /// Send these whole tracks to Console 1, in `trackBatch` batches.
    SendTrackDump(Vec<Vec<ConsoleTrackFields>>),
    /// Send these bare DSP field updates to Console 1.
    SendBare(Vec<BareUpdateEntry<JsonValue>>),
    /// Send one message to Mixing Station.
    WsSend(JsonValue),
    /// Start a connection engine to this URL (replacing any engine held).
    ConnectWs(String),
    /// Shut the connection engine down.
    CloseWs,
    /// (Re)arm the initialization timer this many ms from now.
    ArmInitFlush(u64),
    /// Disarm the initialization timer.
    CancelInitFlush,
    /// Arm the console-information timeout this many ms from now.
    ArmConsoleInfoTimeout(u64),
    /// Forget the metering subscription and the recorded meter levels.
    ResetMetering,
    /// Log the architecture now known (total, inputs, buses, Main).
    LogArchitecture { total: i64, inputs: i64, bus_start: i64, bus_count: i64, main: Vec<i64> },
    /// Arm the track-update flush timer unless it is armed.
    ArmUpdateFlush,
    /// Arm the bare-update flush timer unless it is armed.
    ArmBareFlush,
    /// Arm the Mixing Station write flush timer unless it is armed.
    ArmWriteFlush,
    /// Report an event to the host.
    Emit(BridgeEvent),
    /// Stop the MIDI engine.
    StopMidi,
}

/// The runtime's state: the decision core and what the lifecycle, the connection, the
/// initialization window and the queues add to it.
pub struct RuntimeState {
    pub core: BridgeCore,
    pub architecture: ConsoleArchitecture,
    pub osd_enabled: bool,
    pub console_info_pending: bool,
    /// A connection engine is running (connected or not).
    pub ws_engine: bool,
    pub ws_connected: bool,
    pub is_initializing: bool,
    /// Channel updates held back while initializing, each with its normalized input gain.
    pub init_buffer: Vec<(ParsedChannelDataMessage, u64)>,
    pub has_sent_initial_track_dump: bool,
    pub update_queue: UpdateQueue<JsonValue>,
    pub bare_update_queue: BareUpdateQueue<JsonValue>,
    pub ms_write_queue: MsWriteQueue<JsonValue>,
    pub echo_tracker: EchoSuppressionTracker,
    pub object_ids_by_ms_channel: HashMap<usize, Vec<usize>>,
    pub init_seen_ms_channels: HashSet<i64>,
}

impl RuntimeState {
    /// The parts are each well formed, and the core can run its transitions.
    pub open spec fn wf(&self) -> bool {
        &&& self.core.wf()
        &&& 2 * self.core.input_channel_count <= usize::MAX
        &&& self.update_queue.wf()
        &&& self.bare_update_queue.wf()
        &&& self.ms_write_queue.wf()
        &&& self.echo_tracker.wf()
    }
}

/// `a` reports log line `text`.
pub open spec fn is_log(a: RuntimeAction, text: Seq<char>) -> bool {
    a matches RuntimeAction::Emit(BridgeEvent::Log(s)) && s@ == text
}

/// `j` is `{"cmd": "RESET"}`.
pub open spec fn is_reset_json(j: JsonValue) -> bool {
    j matches JsonValue::Object(m) && m@.len() == 1 && m@[0].0@ == "cmd"@
        && (m@[0].1 matches JsonValue::Str(c) && c@ == "RESET"@)
}

/// `j` is `{"trackId": id, "isActive": false}`.
pub open spec fn is_deactivation(j: JsonValue, id: Seq<char>) -> bool {
    j matches JsonValue::Object(m) && m@.len() == 2 && m@[0].0@ == "trackId"@
        && (m@[0].1 matches JsonValue::Str(s) && s@ == id) && m@[1].0@ == "isActive"@ && m@[1].1 == JsonValue::Bool(false)
}

/// `j` is `{"trackId": id, ...fields}`.
pub open spec fn is_update_entry(j: JsonValue, id: Seq<char>, fields: Seq<(Seq<char>, JsonValue)>) -> bool {
    j matches JsonValue::Object(m) && m@.len() == fields.len() + 1 && m@[0].0@ == "trackId"@
        && (m@[0].1 matches JsonValue::Str(s) && s@ == id) && pairs_view(m@.skip(1)) == fields
}

/// `entries` are the `trackBatch` entries of queue entries `q`, in order.
pub open spec fn update_entries(entries: Seq<JsonValue>, q: Seq<(Seq<char>, (Seq<(Seq<char>, JsonValue)>, bool))>) -> bool {
    &&& entries.len() == q.len()
    &&& forall|k: int| 0 <= k < q.len() ==> is_update_entry(#[trigger] entries[k], q[k].0, q[k].1.0)
}

/// `entries` deactivate, one each, the cached tracks of `tracks` whose object ID `keep`
/// does not spare (with `keep`, the first bank is spared).
pub open spec fn deactivations(entries: Seq<JsonValue>, tracks: Map<usize, TrackInfo>, keep: bool) -> bool {
    exists|ids: Seq<usize>| {
        &&& ids.no_duplicates()
        &&& ids.to_set() == tracks.dom().filter(|o: usize| !keep || o > START_SLOT_OBJECT_ID)
        &&& entries.len() == ids.len()
        &&& forall|k: int| 0 <= k < ids.len() ==> is_deactivation(#[trigger] entries[k], tracks[ids[k]].track_id@)
    }
}

/// Entering standby: the lifecycle becomes standby, the connection is dropped (its
/// engine shut down), the initialization window closes, pending track and bare updates
/// are dropped, and the real-channel tracks are deactivated on Console 1 and forgotten
/// (their trackIds stay).
pub open spec fn standby_entered(old: RuntimeState, new: RuntimeState, actions: Seq<RuntimeAction>) -> bool {
    &&& new == (RuntimeState {
        core: new.core,
        ws_engine: false,
        ws_connected: false,
        is_initializing: false,
        update_queue: new.update_queue,
        bare_update_queue: new.bare_update_queue,
        ..old
    })
    &&& new.core == (BridgeCore { lifecycle: Lifecycle::Standby, track_cache: new.core.track_cache, ..old.core })
    &&& new.core.track_cache.registry() == old.core.track_cache.registry()
    &&& new.core.track_cache.tracks() == old.core.track_cache.tracks().restrict(
        old.core.track_cache.tracks().dom().filter(|o: usize| o <= START_SLOT_OBJECT_ID))
    &&& new.update_queue.view_entries().len() == 0
    &&& new.bare_update_queue.view_entries().len() == 0
    &&& actions.len() == if old.ws_engine { 4int } else { 3int }
    &&& is_log(actions[0], "[Lifecycle] standby"@)
    &&& actions[1] == RuntimeAction::Emit(BridgeEvent::LifecycleChanged(Lifecycle::Standby))
    &&& old.ws_engine ==> actions[2] is CloseWs
    &&& actions.last() matches RuntimeAction::SendTrackBatches(p) && exists|e: Seq<JsonValue>|
        #[trigger] in_chunks(chunk_views(p@), e) && deactivations(e, old.core.track_cache.tracks(), true)
}

/// Shutting down: Console 1 is told to reset, every cached track is deactivated and the
/// cache replaced by an empty one (no trackIds), the OSD is off, the connection engine (if any) is shut
/// down, then the MIDI engine.
pub open spec fn shut_down(old: RuntimeState, new: RuntimeState, actions: Seq<RuntimeAction>) -> bool {
    &&& new == (RuntimeState { core: new.core, osd_enabled: false, ws_engine: false, ws_connected: false, ..old })
    &&& new.core == (BridgeCore { track_cache: new.core.track_cache, ..old.core })
    &&& new.core.track_cache.registry().entries().len() == 0
    &&& new.core.track_cache.tracks() == Map::<usize, TrackInfo>::empty()
    &&& actions.len() == if old.ws_engine { 9int } else { 7int }
    &&& actions[0] matches RuntimeAction::SendSysexJson(j) && is_reset_json(j)
    &&& is_log(actions[1], "Sent RESET command to Console 1."@)
    &&& actions[2] matches RuntimeAction::SendTrackBatches(p) && exists|e: Seq<JsonValue>|
        #[trigger] in_chunks(chunk_views(p@), e) && deactivations(e, old.core.track_cache.tracks(), false)
    &&& is_log(actions[3], "Deactivated all tracks on Console 1."@)
    &&& is_log(actions[4], "Cleared track cache."@)
    &&& is_log(actions[5], "Disabled OSD."@)
    &&& old.ws_engine ==> actions[6] is CloseWs && is_log(actions[7], "Closed Mixing Station WebSocket."@)
    &&& actions.last() is StopMidi
}

/// The pending writes after noting each of `writes` (by `path|format`) at `now`.
pub open spec fn noted_writes(p: PendingWrites, writes: Seq<((Seq<char>, Seq<char>), JsonValue)>, now: u64) -> PendingWrites
    decreases writes.len(),
{
    if writes.len() == 0 {
        p
    } else {
        let w = writes.last();
        upsert(noted_writes(p, writes.drop_last(), now), w.0.0 + "|"@ + w.0.1, RecentWrite { value: w.1, at: now })
    }
}

/// Flushing the Mixing Station writes at `now`: the queue is emptied; while connected,
/// each write is sent as a set request and noted for echo suppression, in queue order;
/// while not, the writes are dropped.
pub open spec fn writes_flushed(old: RuntimeState, new: RuntimeState, now: u64, actions: Seq<RuntimeAction>) -> bool {
    let q = old.ms_write_queue.view_entries();
    &&& new == (RuntimeState { ms_write_queue: new.ms_write_queue, echo_tracker: new.echo_tracker, ..old })
    &&& new.ms_write_queue.view_entries().len() == 0
    &&& if old.ws_connected {
        &&& new.echo_tracker.pending() == noted_writes(old.echo_tracker.pending(), q, now)
        &&& actions.len() == q.len()
        &&& forall|k: int| 0 <= k < q.len() ==> (#[trigger] actions[k] matches RuntimeAction::WsSend(j)
            && exists|v: JsonValue| json_eq(v, q[k].1) && is_ms_set_request(j, q[k].0.0, q[k].0.1, v))
    } else {
        new.echo_tracker == old.echo_tracker && actions.len() == 0
    }
}

/// Flushing the track updates: the forced entries always go out; with the OSD on, the
/// rest go out too, otherwise they stay queued.
pub open spec fn updates_flushed(old: RuntimeState, new: RuntimeState, actions: Seq<RuntimeAction>) -> bool {
    let q = old.update_queue.view_entries();
    &&& new == (RuntimeState { update_queue: new.update_queue, ..old })
    &&& actions.len() == if old.osd_enabled { 2int } else { 1int }
    &&& actions[0] matches RuntimeAction::SendTrackBatches(p) && exists|e: Seq<JsonValue>|
        #[trigger] in_chunks(chunk_views(p@), e) && update_entries(e, entries_with_force(q, true))
    &&& if old.osd_enabled {
        &&& actions[1] matches RuntimeAction::SendTrackBatches(p) && exists|e: Seq<JsonValue>|
            #[trigger] in_chunks(chunk_views(p@), e) && update_entries(e, entries_with_force(q, false))
        &&& new.update_queue.view_entries().len() == 0
    } else {
        new.update_queue.view_entries() == entries_with_force(q, false)
    }
}

/// Flushing the bare updates: the queue is emptied; the updates go out only with the OSD
/// on.
pub open spec fn bares_flushed(old: RuntimeState, new: RuntimeState, actions: Seq<RuntimeAction>) -> bool {
    &&& new == (RuntimeState { bare_update_queue: new.bare_update_queue, ..old })
    &&& new.bare_update_queue.view_entries().len() == 0
    &&& if old.osd_enabled {
        &&& actions.len() == 1
        &&& actions[0] matches RuntimeAction::SendBare(e) && bare_entries_view(e@) == old.bare_update_queue.view_entries()
    } else {
        actions.len() == 0
    }
}

} // verus!

verus! {

fn log_action(text: &str) -> (res: RuntimeAction)
    ensures
        is_log(res, text@),
{
    RuntimeAction::Emit(BridgeEvent::Log(crate::text::owned(text)))
}

fn reset_json() -> (res: JsonValue)
    ensures
        is_reset_json(res),
{
    let mut m: Vec<(String, JsonValue)> = Vec::new();
    m.push((crate::text::owned("cmd"), JsonValue::Str(crate::text::owned("RESET"))));
    JsonValue::Object(m)
}

fn deactivation(id: &String) -> (res: JsonValue)
    ensures
        is_deactivation(res, id@),
{
    let mut m: Vec<(String, JsonValue)> = Vec::new();
    m.push((crate::text::owned("trackId"), JsonValue::Str(id.clone())));
    m.push((crate::text::owned("isActive"), JsonValue::Bool(false)));
    JsonValue::Object(m)
}

/// The deactivation entries of the cached tracks (sparing the first bank with `keep`).
fn deactivation_entries(cache: &TrackCache, keep: bool) -> (res: Vec<JsonValue>)
    requires
        cache.wf(),
    ensures
        deactivations(res@, cache.tracks(), keep),
{
    broadcast use vstd::seq_lib::group_seq_properties;
    let ids = cache.cached_object_ids();
    let ghost tracks = cache.tracks();
    let mut out: Vec<JsonValue> = Vec::new();
    let mut chosen: Vec<usize> = Vec::new();
    let mut i: usize = 0;
    while i < ids.len()
        invariant
            i <= ids@.len(),
            ids@.to_set() == tracks.dom(),
            ids@.no_duplicates(),
            tracks == cache.tracks(),
            chosen@.no_duplicates(),
            forall|x: usize| #[trigger] chosen@.contains(x) <==> (ids@.subrange(0, i as int).contains(x)
                && (!keep || x > START_SLOT_OBJECT_ID)),
            out@.len() == chosen@.len(),
            forall|k: int| 0 <= k < chosen@.len() ==> is_deactivation(#[trigger] out@[k], tracks[chosen@[k]].track_id@),
        decreases ids.len() - i,
    {
        let o = ids[i];
        proof {
            assert(ids@.subrange(0, i + 1) =~= ids@.subrange(0, i as int).push(o));
            assert(ids@.to_set().contains(o));
            assert(!ids@.subrange(0, i as int).contains(o)) by {
                if ids@.subrange(0, i as int).contains(o) {
                    let j = choose|j: int| 0 <= j < i && #[trigger] ids@.subrange(0, i as int)[j] == o;
                    assert(ids@[j] == ids@[i as int]);
                }
            }
        }
        let ghost before = chosen@;
        if !keep || o > START_SLOT_OBJECT_ID {
            match cache.get(o) {
                Some(t) => {
                    let e = deactivation(&t.track_id);
                    let ghost prev = chosen@;
                    chosen.push(o);
                    out.push(e);
                    proof {
                        assert(!prev.contains(o));
                        assert forall|x: usize| #[trigger] chosen@.contains(x) <==> (prev.contains(x) || x == o) by {
                            if x == o {
                                assert(chosen@[prev.len() as int] == o);
                            }
                            if chosen@.contains(x) && x != o {
                                let j = choose|j: int| 0 <= j < chosen@.len() && chosen@[j] == x;
                                assert(prev[j] == x);
                            }
                            if prev.contains(x) {
                                let j = choose|j: int| 0 <= j < prev.len() && prev[j] == x;
                                assert(chosen@[j] == x);
                            }
                        }
                        assert forall|a: int, b: int| 0 <= a < b < chosen@.len() implies chosen@[a] != chosen@[b] by {
                            if b == prev.len() {
                                assert(prev.contains(chosen@[a]));
                            } else {
                                assert(prev[a] != prev[b]);
                            }
                        }
                    }
                },
                None => {
                    assert(false);
                },
            }
        }
        proof {
            assert forall|x: usize| #[trigger] chosen@.contains(x) <==> (ids@.subrange(0, i + 1).contains(x)
                && (!keep || x > START_SLOT_OBJECT_ID)) by {
                assert(ids@.subrange(0, i + 1).contains(x) <==> (ids@.subrange(0, i as int).contains(x) || x == o)) by {
                    if x == o {
                        assert(ids@.subrange(0, i + 1)[i as int] == o);
                    }
                    if ids@.subrange(0, i + 1).contains(x) && x != o {
                        let j = choose|j: int| 0 <= j < i + 1 && #[trigger] ids@.subrange(0, i + 1)[j] == x;
                        assert(ids@.subrange(0, i as int)[j] == x);
                    }
                    if ids@.subrange(0, i as int).contains(x) {
                        let j = choose|j: int| 0 <= j < i && #[trigger] ids@.subrange(0, i as int)[j] == x;
                        assert(ids@.subrange(0, i + 1)[j] == x);
                    }
                }
            }
        }
        i = i + 1;
    }
    proof {
        assert(ids@.subrange(0, i as int) =~= ids@);
        assert forall|x: usize| chosen@.to_set().contains(x) <==> tracks.dom().filter(|o: usize| !keep || o > START_SLOT_OBJECT_ID).contains(x) by {
            assert(chosen@.to_set().contains(x) <==> chosen@.contains(x));
            assert(ids@.to_set().contains(x) <==> ids@.contains(x));
        }
        assert(chosen@.to_set() =~= tracks.dom().filter(|o: usize| !keep || o > START_SLOT_OBJECT_ID));
    }
    out
}

} // verus!

verus! {

/// The architecture assumed until Mixing Station reports one: 80 channels, 32 inputs, 16
/// buses from channel 48, Main on 70/71.
pub open spec fn is_default_architecture(a: ConsoleArchitecture) -> bool {
    &&& a.total_channels == 80
    &&& a.input_channel_count == 32
    &&& a.bus_channel_start == 48
    &&& a.bus_channel_count == 16
    &&& a.main_stereo_channels@ == seq![70i64, 71i64]
}

/// The default architecture (see [`is_default_architecture`]).
pub fn default_architecture() -> (res: ConsoleArchitecture)
    ensures
        is_default_architecture(res),
{
    ConsoleArchitecture {
        total_channels: 80,
        input_channel_count: 32,
        bus_channel_start: 48,
        bus_channel_count: 16,
        main_stereo_channels: vec![70, 71],
    }
}

fn architecture_sized(a: &ConsoleArchitecture) -> (res: bool)
    ensures
        res == layout_sized(*a),
{
    let quarter: i128 = (usize::MAX / 4) as i128;
    let max: i128 = usize::MAX as i128;
    0 <= a.input_channel_count && (a.input_channel_count as i128) <= quarter && 0 <= a.bus_channel_count
        && (a.bus_channel_count as i128) <= quarter && 0 <= a.bus_channel_start
        && (a.bus_channel_start as i128) + (a.bus_channel_count as i128) <= max
}

fn slot_nameable(slot: &LayoutSlot, bcs: usize) -> (res: bool)
    ensures
        res == nameable_slot(*slot, bcs),
{
    let n = slot.ms_channels.len();
    match slot.kind {
        LayoutSlotKind::Input => if n == 2 {
            slot.ms_channels[0] < usize::MAX && slot.ms_channels[1] < usize::MAX
        } else {
            match slot.ms_primary {
                Some(p) => p < usize::MAX,
                None => true,
            }
        },
        LayoutSlotKind::Bus => if n == 2 {
            bcs <= slot.ms_channels[0] && slot.ms_channels[0] < usize::MAX && bcs <= slot.ms_channels[1]
                && slot.ms_channels[1] < usize::MAX
        } else {
            match slot.ms_primary {
                Some(p) => bcs <= p && p < usize::MAX,
                None => true,
            }
        },
        _ => true,
    }
}

fn layout_checked(layout: &Vec<LayoutSlot>, bcs: usize) -> (res: bool)
    ensures
        res == layout_ok(layout@, bcs),
{
    if layout.len() as u64 >= i64::MAX as u64 {
        return false;
    }
    let mut i: usize = 0;
    while i < layout.len()
        invariant
            i <= layout@.len(),
            forall|k: int| 0 <= k < i ==> (#[trigger] layout@[k]).object_id == k && nameable_slot(layout@[k], bcs),
        decreases layout.len() - i,
    {
        if layout[i].object_id != i || !slot_nameable(&layout[i], bcs) {
            return false;
        }
        i = i + 1;
    }
    true
}

/// The layout is rebuilt from the configuration and the architecture (the default one when
/// the known one is too large for a layout): when the built layout is consistent it
/// replaces the old one, with the bus start and input count of the architecture; the
/// channel index follows the layout; the real-channel tracks are forgotten, the channels
/// seen, sends mode and the input send state are reset. Nothing else changes.
pub open spec fn layout_rebuilt(old: RuntimeState, new: RuntimeState) -> bool {
    let a = new.architecture;
    &&& if layout_sized(old.architecture) { a == old.architecture } else { is_default_architecture(a) }
    &&& new == (RuntimeState {
        core: new.core,
        architecture: a,
        object_ids_by_ms_channel: new.object_ids_by_ms_channel,
        init_seen_ms_channels: new.init_seen_ms_channels,
        ..old
    })
    &&& new.init_seen_ms_channels@.is_empty()
    &&& new.core == (BridgeCore {
        layout: new.core.layout,
        track_cache: new.core.track_cache,
        bus_channel_start: new.core.bus_channel_start,
        input_channel_count: new.core.input_channel_count,
        sends_mode_ms_send_index: None,
        sends_mode_subscribed_ms_send_index: None,
        input_send_state: new.core.input_send_state,
        ..old.core
    })
    &&& new.core.input_send_state.states().is_empty()
    &&& new.core.track_cache.registry() == old.core.track_cache.registry()
    &&& new.core.track_cache.tracks() == old.core.track_cache.tracks().restrict(
        old.core.track_cache.tracks().dom().filter(|o: usize| o <= START_SLOT_OBJECT_ID))
    &&& is_channel_index(new.object_ids_by_ms_channel@, new.core.layout@)
    &&& {
        ||| {
            &&& layout_matches(&old.core.config, &a, new.core.layout@)
            &&& new.core.bus_channel_start == a.bus_channel_start as usize
            &&& new.core.input_channel_count == a.input_channel_count as usize
        }
        ||| {
            &&& exists|slots: Seq<LayoutSlot>| #[trigger] layout_matches(&old.core.config, &a, slots)
                && !layout_ok(slots, a.bus_channel_start as usize)
            &&& new.core.layout == old.core.layout
            &&& new.core.bus_channel_start == old.core.bus_channel_start
            &&& new.core.input_channel_count == old.core.input_channel_count
        }
    }
}

impl RuntimeState {
    /// Rebuilds the layout and resets what derives from it ([`layout_rebuilt`]).
    fn rebuild_layout(&mut self)
        requires
            old(self).wf(),
        ensures
            final(self).wf(),
            layout_rebuilt(*old(self), *final(self)),
    {
        if !architecture_sized(&self.architecture) {
            self.architecture = default_architecture();
        }
        let layout = build_default_layout(&self.core.config, &self.architecture);
        let bcs = self.architecture.bus_channel_start as usize;
        if layout_checked(&layout, bcs) {
            self.core.layout = layout;
            self.core.bus_channel_start = bcs;
            self.core.input_channel_count = self.architecture.input_channel_count as usize;
        } else {
            assert(layout_matches(&self.core.config, &self.architecture, layout@));
        }
        self.object_ids_by_ms_channel = object_ids_by_ms_channel(&self.core.layout);
        self.core.track_cache.reset_real_channels(START_SLOT_OBJECT_ID);
        self.init_seen_ms_channels = HashSet::new();
        self.core.sends_mode_ms_send_index = None;
        self.core.sends_mode_subscribed_ms_send_index = None;
        self.core.input_send_state.clear();
    }
}

} // verus!

verus! {

/// `j` is the Console 1 handshake `{"handshake": {"dawName": "Mixing Station",
/// "protocolVersion": [1, 2]}}`.
pub open spec fn is_handshake_json(j: JsonValue) -> bool {
    j matches JsonValue::Object(m) && m@.len() == 1 && m@[0].0@ == "handshake"@ && {
        let h = m@[0].1;
        h matches JsonValue::Object(hm) && hm@.len() == 2 && hm@[0].0@ == "dawName"@
            && (hm@[0].1 matches JsonValue::Str(n) && n@ == "Mixing Station"@)
            && hm@[1].0@ == "protocolVersion"@
            && (hm@[1].1 matches JsonValue::Array(v) && v@ == seq![JsonValue::Number(int_json(1)), JsonValue::Number(int_json(2))])
    }
}

} // verus!

verus! {

fn handshake_json() -> (res: JsonValue)
    ensures
        is_handshake_json(res),
{
    let mut versions: Vec<JsonValue> = Vec::new();
    versions.push(JsonValue::Number(crate::json::i64_number(1)));
    versions.push(JsonValue::Number(crate::json::i64_number(2)));
    assert(versions@ =~= seq![JsonValue::Number(int_json(1)), JsonValue::Number(int_json(2))]);
    let mut h: Vec<(String, JsonValue)> = Vec::new();
    h.push((crate::text::owned("dawName"), JsonValue::Str(crate::text::owned("Mixing Station"))));
    h.push((crate::text::owned("protocolVersion"), JsonValue::Array(versions)));
    let mut m: Vec<(String, JsonValue)> = Vec::new();
    m.push((crate::text::owned("handshake"), JsonValue::Object(h)));
    JsonValue::Object(m)
}

} // verus!

verus! {

/// The `trackBatch` entries of the queue entries `all`, in order.
fn update_batch(all: Vec<(String, QueuedUpdate<JsonValue>)>) -> (res: Vec<JsonValue>)
    ensures
        update_entries(res@, entries_view(all@)),
{
    let ghost q = entries_view(all@);
    let mut all = all;
    let total = all.len();
    let mut out: Vec<JsonValue> = Vec::new();
    let mut n: usize = 0;
    while all.len() > 0
        invariant
            n + all@.len() == q.len(),
            q.len() == total,
            entries_view(all@) == q.subrange(n as int, q.len() as int),
            out@.len() == n,
            forall|k: int| 0 <= k < n ==> is_update_entry(#[trigger] out@[k], q[k].0, q[k].1.0),
        decreases all.len(),
    {
        let ghost before_all = all@;
        let (id, u) = all.remove(0);
        assert(all@ =~= before_all.subrange(1, before_all.len() as int));
        assert forall|j: int| 0 <= j < all@.len() implies #[trigger] entries_view(all@)[j] == q.subrange(n + 1, q.len() as int)[j] by {
            assert(all@[j] == before_all[j + 1]);
            assert(entries_view(before_all)[j + 1] == q.subrange(n as int, q.len() as int)[j + 1]);
        }
        assert(entries_view(all@) =~= q.subrange(n + 1, q.len() as int));
        assert(entries_view(before_all)[0] == q[n as int]);
        let ghost fv = u.fields@;
        let mut fields = u.fields;
        let mut m: Vec<(String, JsonValue)> = Vec::new();
        m.push((crate::text::owned("trackId"), JsonValue::Str(id)));
        m.append(&mut fields);
        assert(m@.skip(1) =~= fv);
        out.push(JsonValue::Object(m));
        n = n + 1;
    }
    out
}

impl RuntimeState {
    /// Enters standby ([`standby_entered`]).
    fn enter_standby(&mut self) -> (actions: Vec<RuntimeAction>)
        requires
            old(self).wf(),
        ensures
            final(self).wf(),
            standby_entered(*old(self), *final(self), actions@),
    {
        let mut actions: Vec<RuntimeAction> = Vec::new();
        self.core.lifecycle = Lifecycle::Standby;
        actions.push(log_action("[Lifecycle] standby"));
        actions.push(RuntimeAction::Emit(BridgeEvent::LifecycleChanged(Lifecycle::Standby)));
        self.ws_connected = false;
        if self.ws_engine {
            self.ws_engine = false;
            actions.push(RuntimeAction::CloseWs);
        }
        self.is_initializing = false;
        let _ = self.update_queue.take_all();
        let _ = self.bare_update_queue.take_all();
        let entries = deactivation_entries(&self.core.track_cache, true);
        let ghost e = entries@;
        let parts = into_chunks(entries);
        actions.push(RuntimeAction::SendTrackBatches(parts));
        assert(actions@.last() matches RuntimeAction::SendTrackBatches(p) && in_chunks(chunk_views(p@), e)
            && deactivations(e, old(self).core.track_cache.tracks(), true));
        self.core.track_cache.reset_real_channels(START_SLOT_OBJECT_ID);
        actions
    }

    /// Shuts down ([`shut_down`]).
    fn shutdown(&mut self) -> (actions: Vec<RuntimeAction>)
        requires
            old(self).wf(),
        ensures
            final(self).wf(),
            shut_down(*old(self), *final(self), actions@),
    {
        let mut actions: Vec<RuntimeAction> = Vec::new();
        actions.push(RuntimeAction::SendSysexJson(reset_json()));
        actions.push(log_action("Sent RESET command to Console 1."));
        let entries = deactivation_entries(&self.core.track_cache, false);
        let ghost e = entries@;
        let parts = into_chunks(entries);
        actions.push(RuntimeAction::SendTrackBatches(parts));
        assert(actions@[2] matches RuntimeAction::SendTrackBatches(p) && in_chunks(chunk_views(p@), e)
            && deactivations(e, old(self).core.track_cache.tracks(), false));
        actions.push(log_action("Deactivated all tracks on Console 1."));
        self.core.track_cache = TrackCache::new();
        actions.push(log_action("Cleared track cache."));
        self.osd_enabled = false;
        actions.push(log_action("Disabled OSD."));
        self.ws_connected = false;
        if self.ws_engine {
            self.ws_engine = false;
            actions.push(RuntimeAction::CloseWs);
            actions.push(log_action("Closed Mixing Station WebSocket."));
        }
        actions.push(RuntimeAction::StopMidi);
        actions
    }

    /// Flushes the track updates ([`updates_flushed`]).
    fn flush_updates(&mut self) -> (actions: Vec<RuntimeAction>)
        requires
            old(self).wf(),
        ensures
            final(self).wf(),
            updates_flushed(*old(self), *final(self), actions@),
    {
        let mut actions: Vec<RuntimeAction> = Vec::new();
        let forced = self.update_queue.take_forced();
        let first = update_batch(forced);
        let ghost e1 = first@;
        let p1 = into_chunks(first);
        actions.push(RuntimeAction::SendTrackBatches(p1));
        assert(actions@[0] matches RuntimeAction::SendTrackBatches(p) && in_chunks(chunk_views(p@), e1)
            && update_entries(e1, entries_with_force(old(self).update_queue.view_entries(), true)));
        if self.osd_enabled {
            let rest = self.update_queue.take_all();
            let second = update_batch(rest);
            let ghost e2 = second@;
            let p2 = into_chunks(second);
            actions.push(RuntimeAction::SendTrackBatches(p2));
            assert(actions@[1] matches RuntimeAction::SendTrackBatches(p) && in_chunks(chunk_views(p@), e2)
                && update_entries(e2, entries_with_force(old(self).update_queue.view_entries(), false)));
        }
        actions
    }

    /// Flushes the bare updates ([`bares_flushed`]).
    fn flush_bare(&mut self) -> (actions: Vec<RuntimeAction>)
        requires
            old(self).wf(),
        ensures
            final(self).wf(),
            bares_flushed(*old(self), *final(self), actions@),
    {
        let mut actions: Vec<RuntimeAction> = Vec::new();
        let entries = self.bare_update_queue.take_all();
        if self.osd_enabled {
            actions.push(RuntimeAction::SendBare(entries));
        }
        actions
    }

    /// Flushes the Mixing Station writes at `now` ([`writes_flushed`]).
    fn flush_writes(&mut self, now: u64) -> (actions: Vec<RuntimeAction>)
        requires
            old(self).wf(),
        ensures
            final(self).wf(),
            writes_flushed(*old(self), *final(self), now, actions@),
    {
        let mut actions: Vec<RuntimeAction> = Vec::new();
        let ghost q = self.ms_write_queue.view_entries();
        let ghost p0 = self.echo_tracker.pending();
        let mut entries = self.ms_write_queue.take_all();
        if !self.ws_connected {
            return actions;
        }
        let ghost s1 = *self;
        let total = entries.len();
        let mut n: usize = 0;
        assert(q.subrange(0, 0) =~= Seq::<((Seq<char>, Seq<char>), JsonValue)>::empty());
        while entries.len() > 0
            invariant
                n + entries@.len() == q.len(),
                q.len() == total,
                write_entries_view(entries@) == q.subrange(n as int, q.len() as int),
                self.echo_tracker.wf(),
                *self == (RuntimeState { echo_tracker: self.echo_tracker, ..s1 }),
                s1.wf(),
                s1.ms_write_queue.view_entries().len() == 0,
                s1 == (RuntimeState { ms_write_queue: s1.ms_write_queue, ..*old(self) }),
                self.echo_tracker.pending() == noted_writes(p0, q.subrange(0, n as int), now),
                actions@.len() == n,
                forall|k: int| 0 <= k < n ==> (#[trigger] actions@[k] matches RuntimeAction::WsSend(j)
                    && exists|v: JsonValue| json_eq(v, q[k].1) && is_ms_set_request(j, q[k].0.0, q[k].0.1, v)),
            decreases entries.len(),
        {
            let ghost before = entries@;
            let e = entries.remove(0);
            assert(entries@ =~= before.subrange(1, before.len() as int));
            assert forall|j: int| 0 <= j < entries@.len() implies #[trigger] write_entries_view(entries@)[j] == q.subrange(n + 1, q.len() as int)[j] by {
                assert(entries@[j] == before[j + 1]);
                assert(write_entries_view(before)[j + 1] == q.subrange(n as int, q.len() as int)[j + 1]);
            }
            assert(write_entries_view(entries@) =~= q.subrange(n + 1, q.len() as int));
            assert(write_entries_view(before)[0] == q[n as int]);
            let parts: Vec<&str> = vec![e.path.as_str(), "|", e.format.as_str()];
            let key = crate::text::concat_strs(parts.as_slice());
            proof {
                assert(concat_views(parts@) =~= e.path@ + "|"@ + e.format@) by {
                    reveal_with_fuel(concat_views, 4);
                    assert(parts@.drop_last().drop_last().drop_last() =~= Seq::<&str>::empty());
                }
            }
            let copy = copy_json(&e.value);
            let ghost v = e.value;
            self.echo_tracker.note_write(key.as_str(), e.value, now);
            let req = build_ms_set_request(e.path.as_str(), e.format.as_str(), copy);
            actions.push(RuntimeAction::WsSend(req));
            proof {
                assert(q.subrange(0, n + 1).drop_last() =~= q.subrange(0, n as int));
                assert(q.subrange(0, n + 1).last() == q[n as int]);
                assert(actions@[n as int] matches RuntimeAction::WsSend(j) && json_eq(copy, q[n as int].1)
                    && is_ms_set_request(j, q[n as int].0.0, q[n as int].0.1, copy));
            }
            n = n + 1;
        }
        assert(q.subrange(0, n as int) =~= q);
        actions
    }
}

} // verus!

verus! {

/// `m` is the send mapping built from `cfg` for architecture `a`'s bus count.
pub open spec fn mapping_built(m: SendMapping, cfg: Seq<i64>, a: ConsoleArchitecture) -> bool {
    let bcc = (a.bus_channel_count as usize) as int;
    &&& forall|i: int| 0 <= i < 6 ==> m.c1_to_ms_send_index@[i] as int == mapped_send_index(cfg, i, bcc)
    &&& is_first_slot_map(m.ms_send_index_to_c1_slot@, cfg, bcc)
}

/// The patch is applied to the configuration and the send mapping rebuilt from it;
/// nothing else changes.
pub open spec fn config_patched(old: RuntimeState, new: RuntimeState, patch: BridgeConfigPatch) -> bool {
    &&& new == (RuntimeState { core: new.core, ..old })
    &&& new.core == (BridgeCore { config: new.core.config, send_mapping: new.core.send_mapping, ..old.core })
    &&& new.core.config@ == patched_config(old.core.config@, patch)
    &&& mapping_built(new.core.send_mapping, new.core.config@.c1_send_to_ms_bus_number, old.architecture)
}

/// The initialization window opens: updates are buffered again (the buffer starts empty)
/// and the initial track dump is owed again.
pub open spec fn init_window_opened(old: RuntimeState, new: RuntimeState) -> bool {
    &&& new == (RuntimeState {
        is_initializing: true,
        init_buffer: new.init_buffer,
        has_sent_initial_track_dump: false,
        ..old
    })
    &&& new.init_buffer@.len() == 0
}

/// A fresh connection engine replaces the one held (which is shut down first, the
/// connection then counting as lost), at the configured URL.
pub open spec fn reconnected(old: RuntimeState, new: RuntimeState, tail: Seq<RuntimeAction>) -> bool {
    &&& new == (RuntimeState { ws_engine: true, ws_connected: old.ws_connected && !old.ws_engine, ..old })
    &&& tail.len() == if old.ws_engine { 2int } else { 1int }
    &&& old.ws_engine ==> tail[0] is CloseWs
    &&& tail.last() matches RuntimeAction::ConnectWs(u) && u@ == old.core.config@.mixing_station_ws_url
}

/// Entering running: the lifecycle becomes running, the layout is rebuilt, the
/// initialization window opens, a connection engine is started at the configured URL
/// (replacing any engine held) and the forced-resync timer is armed.
pub open spec fn running_entered(old: RuntimeState, new: RuntimeState, actions: Seq<RuntimeAction>) -> bool {
    &&& exists|mid: RuntimeState| {
        &&& #[trigger] layout_rebuilt(RuntimeState { core: BridgeCore { lifecycle: Lifecycle::Running, ..old.core }, ..old }, mid)
        &&& init_window_opened(RuntimeState { ws_engine: true, ..mid }, new)
    }
    &&& actions.len() == 5
    &&& is_log(actions[0], "[Lifecycle] running"@)
    &&& actions[1] == RuntimeAction::Emit(BridgeEvent::LifecycleChanged(Lifecycle::Running))
    &&& actions[2] is ResetMetering
    &&& actions[3] matches RuntimeAction::ConnectWs(u) && u@ == old.core.config@.mixing_station_ws_url
    &&& actions[4] == RuntimeAction::ArmInitFlush(FORCE_RESYNC_FLUSH_DELAY_MS)
}

/// Starting: the patch (if any) is applied first, then running is entered.
pub open spec fn started(old: RuntimeState, new: RuntimeState, patch: Option<BridgeConfigPatch>, actions: Seq<RuntimeAction>) -> bool {
    match patch {
        Some(p) => exists|mid: RuntimeState| #[trigger] config_patched(old, mid, p) && running_entered(mid, new, actions),
        None => running_entered(old, new, actions),
    }
}

/// The text of a bool.
pub open spec fn bool_text(b: bool) -> Seq<char> {
    if b { "true"@ } else { "false"@ }
}

/// The log line that reports an apply result.
pub open spec fn apply_result_text(url_changed: bool, anything_changed: bool) -> Seq<char> {
    "[config] apply result: ConfigApplyResult { url_changed: "@ + bool_text(url_changed) + ", anything_changed: "@
        + bool_text(anything_changed) + " }"@
}

/// The log line that reports applied updates, with the URL change when there is one.
pub open spec fn applied_text(before: Seq<char>, after: Seq<char>) -> Seq<char> {
    if before != after {
        "[config] Applied updates (wsUrlChanged=yes) "@ + before + " -> "@ + after
    } else {
        "[config] Applied updates (wsUrlChanged=no)"@
    }
}

/// What follows an applied change: a URL change reconnects; any other change rebuilds the
/// layout (and resets metering), then reconnects when connected, or else opens the
/// initialization window with the forced-resync timer.
pub open spec fn config_followed(mid: RuntimeState, new: RuntimeState, url_changed: bool, tail: Seq<RuntimeAction>) -> bool {
    if url_changed {
        reconnected(mid, new, tail)
    } else {
        exists|m2: RuntimeState| {
            &&& #[trigger] layout_rebuilt(mid, m2)
            &&& tail.len() >= 1 && tail[0] is ResetMetering
            &&& if m2.ws_connected {
                reconnected(m2, new, tail.skip(1))
            } else {
                &&& init_window_opened(m2, new)
                &&& tail.len() == 2
                &&& tail[1] == RuntimeAction::ArmInitFlush(FORCE_RESYNC_FLUSH_DELAY_MS)
            }
        }
    }
}

/// Applying a config patch: ignored (and logged) unless running; with logging on, the
/// result is logged first; a patch that changes nothing is logged as such; otherwise the
/// change is logged and reported, and [`config_followed`].
pub open spec fn config_applied(old: RuntimeState, new: RuntimeState, patch: BridgeConfigPatch, actions: Seq<RuntimeAction>) -> bool {
    if old.core.lifecycle != Lifecycle::Running {
        new == old && actions.len() == 1 && is_log(actions[0], "[Lifecycle] Ignoring config:apply -- not running."@)
    } else {
        let c = patched_config(old.core.config@, patch);
        let url_changed = c.mixing_station_ws_url != old.core.config@.mixing_station_ws_url;
        let changed = c != old.core.config@;
        let k: int = if c.log_json { 1 } else { 0 };
        &&& c.log_json ==> is_log(actions[0], apply_result_text(url_changed, changed))
        &&& if !changed {
            &&& new == (RuntimeState { core: BridgeCore { config: new.core.config, ..old.core }, ..old })
            &&& new.core.config@ == c
            &&& actions.len() == k + 1
            &&& is_log(actions[k], "[config] No changes to apply"@)
        } else {
            &&& actions.len() >= k + 2
            &&& is_log(actions[k], applied_text(old.core.config@.mixing_station_ws_url, c.mixing_station_ws_url))
            &&& actions[k + 1] == RuntimeAction::Emit(BridgeEvent::ConfigApplied { url_changed, anything_changed: true })
            &&& exists|mid: RuntimeState| #[trigger] config_patched(old, mid, patch)
                && config_followed(mid, new, url_changed, actions.skip(k + 2))
        }
    }
}

fn bool_str(b: bool) -> (res: &'static str)
    ensures
        res@ == bool_text(b),
{
    if b { "true" } else { "false" }
}

impl RuntimeState {
    /// Applies `patch` to the configuration and rebuilds the send mapping.
    fn patch_config(&mut self, patch: &BridgeConfigPatch) -> (res: ConfigApplyResult)
        requires
            old(self).wf(),
        ensures
            final(self).wf(),
            config_patched(*old(self), *final(self), *patch),
            res.url_changed == (final(self).core.config@.mixing_station_ws_url != old(self).core.config@.mixing_station_ws_url),
            res.anything_changed == (final(self).core.config@ != old(self).core.config@),
    {
        let res = apply_patch(&mut self.core.config, patch);
        self.core.send_mapping = build_send_mapping(
            self.core.config.c1_send_to_ms_bus_number.as_slice(),
            #[verifier::truncate] (self.architecture.bus_channel_count as usize),
        );
        res
    }

    /// Replaces the connection engine ([`reconnected`]).
    fn reconnect(&mut self, actions: &mut Vec<RuntimeAction>)
        requires
            old(self).wf(),
        ensures
            final(self).wf(),
            reconnected(*old(self), *final(self), final(actions)@.skip(old(actions)@.len() as int)),
            final(actions)@.take(old(actions)@.len() as int) == old(actions)@,
            final(actions)@.len() >= old(actions)@.len(),
    {
        let ghost n = actions@.len();
        if self.ws_engine {
            actions.push(RuntimeAction::CloseWs);
            self.ws_connected = false;
        }
        self.ws_engine = true;
        actions.push(RuntimeAction::ConnectWs(self.core.config.mixing_station_ws_url.clone()));
        assert(actions@.take(n as int) =~= old(actions)@);
        assert(actions@.skip(n as int).last() == actions@.last());
        proof {
            if old(self).ws_engine {
                assert(actions@.skip(n as int)[0] == actions@[n as int]);
            }
        }
    }

    /// Opens the initialization window ([`init_window_opened`]).
    fn open_init_window(&mut self)
        ensures
            init_window_opened(*old(self), *final(self)),
    {
        self.is_initializing = true;
        self.init_buffer = Vec::new();
        self.has_sent_initial_track_dump = false;
    }

    /// Enters running ([`running_entered`]).
    fn enter_running(&mut self) -> (actions: Vec<RuntimeAction>)
        requires
            old(self).wf(),
        ensures
            final(self).wf(),
            running_entered(*old(self), *final(self), actions@),
    {
        let mut actions: Vec<RuntimeAction> = Vec::new();
        self.core.lifecycle = Lifecycle::Running;
        actions.push(log_action("[Lifecycle] running"));
        actions.push(RuntimeAction::Emit(BridgeEvent::LifecycleChanged(Lifecycle::Running)));
        self.rebuild_layout();
        actions.push(RuntimeAction::ResetMetering);
        let ghost mid = *self;
        self.ws_engine = true;
        self.open_init_window();
        actions.push(RuntimeAction::ConnectWs(self.core.config.mixing_station_ws_url.clone()));
        actions.push(RuntimeAction::ArmInitFlush(FORCE_RESYNC_FLUSH_DELAY_MS));
        assert(init_window_opened(RuntimeState { ws_engine: true, ..mid }, *self));
        actions
    }

    /// Starts ([`started`]).
    fn start(&mut self, patch: Option<BridgeConfigPatch>) -> (actions: Vec<RuntimeAction>)
        requires
            old(self).wf(),
        ensures
            final(self).wf(),
            started(*old(self), *final(self), patch, actions@),
    {
        match patch {
            Some(p) => {
                let _ = self.patch_config(&p);
                let ghost mid = *self;
                let actions = self.enter_running();
                assert(config_patched(*old(self), mid, p));
                actions
            },
            None => self.enter_running(),
        }
    }

    /// What follows an applied change ([`config_followed`]).
    fn follow_config_change(&mut self, url_changed: bool) -> (tail: Vec<RuntimeAction>)
        requires
            old(self).wf(),
        ensures
            final(self).wf(),
            config_followed(*old(self), *final(self), url_changed, tail@),
    {
        let mut actions: Vec<RuntimeAction> = Vec::new();
        if url_changed {
            self.reconnect(&mut actions);
            assert(actions@.skip(0) =~= actions@);
        } else {
            let ghost mid = *self;
            self.rebuild_layout();
            actions.push(RuntimeAction::ResetMetering);
            let ghost m2 = *self;
            if self.ws_connected {
                self.reconnect(&mut actions);
                assert(actions@.take(1)[0] == actions@[0]);
            } else {
                self.open_init_window();
                actions.push(RuntimeAction::ArmInitFlush(FORCE_RESYNC_FLUSH_DELAY_MS));
            }
            assert(layout_rebuilt(mid, m2));
        }
        actions
    }

    /// Applies a config patch ([`config_applied`]).
    fn apply_config(&mut self, patch: BridgeConfigPatch) -> (actions: Vec<RuntimeAction>)
        requires
            old(self).wf(),
        ensures
            final(self).wf(),
            config_applied(*old(self), *final(self), patch, actions@),
    {
        let mut actions: Vec<RuntimeAction> = Vec::new();
        if self.core.lifecycle != Lifecycle::Running {
            actions.push(log_action("[Lifecycle] Ignoring config:apply -- not running."));
            return actions;
        }
        let before_url = self.core.config.mixing_station_ws_url.clone();
        let ghost s0 = *self;
        let result = apply_patch(&mut self.core.config, &patch);
        if self.core.config.log_json {
            let parts: Vec<&str> = vec![
                "[config] apply result: ConfigApplyResult { url_changed: ",
                bool_str(result.url_changed),
                ", anything_changed: ",
                bool_str(result.anything_changed),
                " }",
            ];
            let text = crate::text::concat_strs(parts.as_slice());
            proof {
                reveal_with_fuel(concat_views, 6);
                assert(parts@.drop_last().drop_last().drop_last().drop_last().drop_last() =~= Seq::<&str>::empty());
                assert(text@ =~= apply_result_text(result.url_changed, result.anything_changed));
            }
            actions.push(RuntimeAction::Emit(BridgeEvent::Log(text)));
        }
        if !result.anything_changed {
            actions.push(log_action("[config] No changes to apply"));
            return actions;
        }
        self.core.send_mapping = build_send_mapping(
            self.core.config.c1_send_to_ms_bus_number.as_slice(),
            #[verifier::truncate] (self.architecture.bus_channel_count as usize),
        );
        let r2 = result;
        let ghost mid = *self;
        let text = if r2.url_changed {
            let parts: Vec<&str> = vec![
                "[config] Applied updates (wsUrlChanged=yes) ",
                before_url.as_str(),
                " -> ",
                self.core.config.mixing_station_ws_url.as_str(),
            ];
            let t = crate::text::concat_strs(parts.as_slice());
            proof {
                reveal_with_fuel(concat_views, 5);
                assert(parts@.drop_last().drop_last().drop_last().drop_last() =~= Seq::<&str>::empty());
            }
            t
        } else {
            crate::text::owned("[config] Applied updates (wsUrlChanged=no)")
        };
        assert(text@ =~= applied_text(s0.core.config@.mixing_station_ws_url, mid.core.config@.mixing_station_ws_url));
        actions.push(RuntimeAction::Emit(BridgeEvent::Log(text)));
        actions.push(RuntimeAction::Emit(BridgeEvent::ConfigApplied { url_changed: r2.url_changed, anything_changed: true }));
        proof {
            let kk: int = if mid.core.config.log_json { 1 } else { 0 };
            assert(actions@.len() == kk + 2);
            assert(is_log(actions@[kk], applied_text(s0.core.config@.mixing_station_ws_url, mid.core.config@.mixing_station_ws_url)));
        }
        let mut tail = self.follow_config_change(r2.url_changed);
        let ghost k: int = actions@.len() as int;
        let ghost t = tail@;
        actions.append(&mut tail);
        assert(actions@.skip(k) =~= t);
        assert(config_patched(s0, mid, patch));
        actions
    }
}

} // verus!

verus! {

/// `part` sends the Mixing Station requests `reqs`, one message each, in order.
pub open spec fn requests_sent(part: Seq<RuntimeAction>, reqs: Seq<MsRequestView>) -> bool {
    &&& part.len() == reqs.len()
    &&& forall|k: int| 0 <= k < reqs.len() ==> (#[trigger] part[k] matches RuntimeAction::WsSend(j)
        && is_request_message(j, reqs[k]))
}

/// The Main channels of `a` as channel indices.
pub open spec fn main_channels(a: ConsoleArchitecture) -> Seq<usize> {
    a.main_stereo_channels@.map_values(|c: i64| c as usize)
}

/// What a connect asks of Mixing Station: the required subscriptions, then a refresh of the
/// DSP fields of every input, bus and Main channel.
pub open spec fn connect_requests(s: RuntimeState) -> Seq<MsRequestView> {
    let a = s.architecture;
    required_subscriptions(s.core.send_mapping.c1_to_ms_send_index@) + dsp_refresh(refresh_channels(
        a.input_channel_count as usize, a.bus_channel_start as usize, a.bus_channel_count as usize, main_channels(a)))
}

/// Finishing a connect (while still connected): the layout is rebuilt (and metering reset),
/// the initialization window opens, the requests of [`connect_requests`] go out, the OSD is
/// turned off and the handshake sent, and the initialization timer armed.
pub open spec fn connect_finished(old: RuntimeState, new: RuntimeState, actions: Seq<RuntimeAction>) -> bool {
    if !old.ws_connected {
        new == old && actions.len() == 0
    } else {
        exists|mid: RuntimeState| #[trigger] layout_rebuilt(old, mid) && {
            let reqs = connect_requests(mid);
            &&& init_window_opened(RuntimeState { osd_enabled: false, ..mid }, new)
            &&& actions.len() == reqs.len() + 4
            &&& actions[0] is ResetMetering
            &&& requests_sent(actions.subrange(1, reqs.len() as int + 1), reqs)
            &&& actions[reqs.len() as int + 1] matches RuntimeAction::SendSysexJson(j) && is_handshake_json(j)
            &&& is_log(actions[reqs.len() as int + 2], "Console 1 handshake sent."@)
            &&& actions[reqs.len() as int + 3] == RuntimeAction::ArmInitFlush(INIT_FLUSH_TIMEOUT_MS)
        }
    }
}

/// `j` is `{"path": "/console/information", "method": "GET"}`.
pub open spec fn is_console_info_request(j: JsonValue) -> bool {
    j matches JsonValue::Object(m) && m@.len() == 2 && m@[0].0@ == "path"@
        && (m@[0].1 matches JsonValue::Str(p) && p@ == "/console/information"@) && m@[1].0@ == "method"@
        && (m@[1].1 matches JsonValue::Str(g) && g@ == "GET"@)
}

/// The connection opened: the console information is asked for, with its timeout armed.
pub open spec fn ws_opened(old: RuntimeState, new: RuntimeState, actions: Seq<RuntimeAction>) -> bool {
    &&& new == (RuntimeState { ws_connected: true, console_info_pending: true, ..old })
    &&& actions.len() == 3
    &&& is_log(actions[0], "Connected to Mixing Station WebSocket"@)
    &&& actions[1] matches RuntimeAction::WsSend(j) && is_console_info_request(j)
    &&& actions[2] == RuntimeAction::ArmConsoleInfoTimeout(CONSOLE_INFO_TIMEOUT_MS)
}

/// The connection was lost: the initialization window closes (its timer disarmed).
pub open spec fn ws_lost(old: RuntimeState, new: RuntimeState, actions: Seq<RuntimeAction>) -> bool {
    &&& new == (RuntimeState { ws_connected: false, is_initializing: false, ..old })
    &&& actions.len() == 2
    &&& is_log(actions[0], "Mixing Station WebSocket disconnected, will auto-reconnect."@)
    &&& actions[1] is CancelInitFlush
}

/// The fields of an architecture.
pub open spec fn arch_fields(a: ConsoleArchitecture) -> (i64, i64, i64, i64, Seq<i64>) {
    (a.total_channels, a.input_channel_count, a.bus_channel_start, a.bus_channel_count, a.main_stereo_channels@)
}

/// The console information arrived: unless it was not awaited (then nothing happens), it
/// updates the architecture (left as it is when its Main pair's channel numbers do not fit
/// an `i64`), which is logged when logging is on, and the connect finishes.
pub open spec fn console_info_received(old: RuntimeState, new: RuntimeState, info: ConsoleInformation, actions: Seq<RuntimeAction>) -> bool {
    if !old.console_info_pending {
        new == old && actions.len() == 0
    } else {
        exists|mid: RuntimeState| {
            &&& #[trigger] arch_fields(mid.architecture) == if main_pair_fits(info) {
                architecture_after(info, old.architecture)
            } else {
                arch_fields(old.architecture)
            }
            &&& mid == (RuntimeState { console_info_pending: false, architecture: mid.architecture, ..old })
            &&& {
                let k: int = if old.core.config.log_json { 1 } else { 0 };
                &&& actions.len() >= k
                &&& old.core.config.log_json ==> (actions[0] matches RuntimeAction::LogArchitecture { total, inputs,
                    bus_start, bus_count, main } && (total, inputs, bus_start, bus_count, main@) == arch_fields(mid.architecture))
                &&& connect_finished(mid, new, actions.skip(k))
            }
        }
    }
}

/// The console information did not arrive in time: unless it is no longer awaited, the
/// connect finishes with the architecture known.
pub open spec fn console_info_timed_out(old: RuntimeState, new: RuntimeState, actions: Seq<RuntimeAction>) -> bool {
    if !old.console_info_pending {
        new == old && actions.len() == 0
    } else {
        connect_finished(RuntimeState { console_info_pending: false, ..old }, new, actions)
    }
}

fn push_requests(actions: &mut Vec<RuntimeAction>, reqs: &Vec<MsRequest>)
    ensures
        final(actions)@.len() == old(actions)@.len() + reqs@.len(),
        final(actions)@.take(old(actions)@.len() as int) == old(actions)@,
        requests_sent(final(actions)@.skip(old(actions)@.len() as int), requests_view(reqs@)),
{
    let ghost n0 = actions@.len();
    let mut i: usize = 0;
    while i < reqs.len()
        invariant
            i <= reqs@.len(),
            actions@.len() == n0 + i,
            n0 == old(actions)@.len(),
            actions@.take(n0 as int) == old(actions)@,
            forall|k: int| 0 <= k < i ==> (#[trigger] actions@[n0 + k] matches RuntimeAction::WsSend(j)
                && is_request_message(j, requests_view(reqs@)[k])),
        decreases reqs.len() - i,
    {
        let m = ms_request_message(&reqs[i]);
        let ghost before = actions@;
        actions.push(RuntimeAction::WsSend(m));
        assert(actions@.take(n0 as int) =~= before.take(n0 as int));
        i = i + 1;
    }
    assert forall|k: int| 0 <= k < reqs@.len() implies (#[trigger] actions@.skip(n0 as int)[k] matches RuntimeAction::WsSend(j)
        && is_request_message(j, requests_view(reqs@)[k])) by {
        assert(actions@.skip(n0 as int)[k] == actions@[n0 + k]);
    }
}

fn copy_i64s(v: &Vec<i64>) -> (res: Vec<i64>)
    ensures
        res@ == v@,
{
    let mut out: Vec<i64> = Vec::new();
    let mut i: usize = 0;
    while i < v.len()
        invariant
            i <= v@.len(),
            out@ == v@.take(i as int),
        decreases v.len() - i,
    {
        out.push(v[i]);
        assert(out@ =~= v@.take(i + 1));
        i = i + 1;
    }
    assert(v@.take(i as int) =~= v@);
    out
}

fn main_channel_indices(a: &ConsoleArchitecture) -> (res: Vec<usize>)
    ensures
        res@ == main_channels(*a),
{
    let v = &a.main_stereo_channels;
    let mut out: Vec<usize> = Vec::new();
    let mut i: usize = 0;
    while i < v.len()
        invariant
            i <= v@.len(),
            out@ == v@.take(i as int).map_values(|c: i64| c as usize),
        decreases v.len() - i,
    {
        out.push(#[verifier::truncate] (v[i] as usize));
        assert(out@ =~= v@.take(i + 1).map_values(|c: i64| c as usize));
        i = i + 1;
    }
    assert(v@.take(i as int) =~= v@);
    out
}

fn console_info_request() -> (res: JsonValue)
    ensures
        is_console_info_request(res),
{
    let mut m: Vec<(String, JsonValue)> = Vec::new();
    m.push((crate::text::owned("path"), JsonValue::Str(crate::text::owned("/console/information"))));
    m.push((crate::text::owned("method"), JsonValue::Str(crate::text::owned("GET"))));
    JsonValue::Object(m)
}

impl RuntimeState {
    /// Finishes a connect ([`connect_finished`]).
    fn finish_connect(&mut self) -> (actions: Vec<RuntimeAction>)
        requires
            old(self).wf(),
        ensures
            final(self).wf(),
            connect_finished(*old(self), *final(self), actions@),
    {
        let mut actions: Vec<RuntimeAction> = Vec::new();
        if !self.ws_connected {
            return actions;
        }
        self.rebuild_layout();
        let ghost mid = *self;
        actions.push(RuntimeAction::ResetMetering);
        let subs = required_channel_subscriptions(&self.core.send_mapping.c1_to_ms_send_index);
        let main = main_channel_indices(&self.architecture);
        let channels = dsp_refresh_channels(
            self.architecture.input_channel_count as usize,
            self.architecture.bus_channel_start as usize,
            self.architecture.bus_channel_count as usize,
            main.as_slice(),
        );
        let refresh = dsp_refresh_requests(channels.as_slice());
        let ghost a0 = actions@;
        push_requests(&mut actions, &subs);
        let ghost a1 = actions@;
        push_requests(&mut actions, &refresh);
        let ghost a2 = actions@;
        let ghost reqs = connect_requests(mid);
        let ghost ns = requests_view(subs@).len();
        proof {
            assert(reqs == requests_view(subs@) + requests_view(refresh@));
            assert forall|k: int| 0 <= k < reqs.len() implies (#[trigger] a2.subrange(1, reqs.len() as int + 1)[k] matches RuntimeAction::WsSend(j)
                && is_request_message(j, reqs[k])) by {
                if k < ns {
                    assert(a2.subrange(1, reqs.len() as int + 1)[k] == a2[1 + k]);
                    assert(a2[1 + k] == a2.take(a1.len() as int)[1 + k]);
                    assert(a1[1 + k] == a1.skip(1)[k]);
                } else {
                    assert(a2.subrange(1, reqs.len() as int + 1)[k] == a2[1 + k]);
                    assert(a2[1 + k] == a2.skip(a1.len() as int)[k - ns]);
                }
            }
        }
        self.open_init_window();
        self.osd_enabled = false;
        actions.push(RuntimeAction::SendSysexJson(handshake_json()));
        actions.push(log_action("Console 1 handshake sent."));
        actions.push(RuntimeAction::ArmInitFlush(INIT_FLUSH_TIMEOUT_MS));
        proof {
            assert(actions@.subrange(1, reqs.len() as int + 1) =~= a2.subrange(1, reqs.len() as int + 1));
            assert(a2[0] == a0[0]) by {
                assert(a2[0] == a2.take(a1.len() as int)[0]);
                assert(a1[0] == a1.take(a0.len() as int)[0]);
            }
            assert(init_window_opened(RuntimeState { osd_enabled: false, ..mid }, *self));
            assert(layout_rebuilt(*old(self), mid));
        }
        actions
    }

    /// The connection opened ([`ws_opened`]).
    fn ws_open(&mut self) -> (actions: Vec<RuntimeAction>)
        ensures
            ws_opened(*old(self), *final(self), actions@),
    {
        let mut actions: Vec<RuntimeAction> = Vec::new();
        actions.push(log_action("Connected to Mixing Station WebSocket"));
        self.ws_connected = true;
        self.console_info_pending = true;
        actions.push(RuntimeAction::WsSend(console_info_request()));
        actions.push(RuntimeAction::ArmConsoleInfoTimeout(CONSOLE_INFO_TIMEOUT_MS));
        actions
    }

    /// The connection was lost ([`ws_lost`]).
    fn ws_lose(&mut self) -> (actions: Vec<RuntimeAction>)
        ensures
            ws_lost(*old(self), *final(self), actions@),
    {
        let mut actions: Vec<RuntimeAction> = Vec::new();
        actions.push(log_action("Mixing Station WebSocket disconnected, will auto-reconnect."));
        self.ws_connected = false;
        self.is_initializing = false;
        actions.push(RuntimeAction::CancelInitFlush);
        actions
    }

    /// The console information arrived ([`console_info_received`]).
    fn receive_console_info(&mut self, info: &ConsoleInformation) -> (actions: Vec<RuntimeAction>)
        requires
            old(self).wf(),
        ensures
            final(self).wf(),
            console_info_received(*old(self), *final(self), *info, actions@),
    {
        let mut actions: Vec<RuntimeAction> = Vec::new();
        if !self.console_info_pending {
            return actions;
        }
        self.console_info_pending = false;
        if fits_main_pair(info) {
            let mut cur = default_architecture();
            std::mem::swap(&mut cur, &mut self.architecture);
            self.architecture = apply_console_information(info, cur);
        }
        let ghost mid = *self;
        if self.core.config.log_json {
            let a = &self.architecture;
            actions.push(RuntimeAction::LogArchitecture {
                total: a.total_channels,
                inputs: a.input_channel_count,
                bus_start: a.bus_channel_start,
                bus_count: a.bus_channel_count,
                main: copy_i64s(&a.main_stereo_channels),
            });
        }
        let ghost k: int = actions@.len() as int;
        let ghost pre = actions@;
        let mut rest = self.finish_connect();
        let ghost r = rest@;
        actions.append(&mut rest);
        assert(actions@.skip(k) =~= r);
        proof {
            if mid.core.config.log_json {
                assert(actions@[0] == pre[0]);
            }
            assert(arch_fields(mid.architecture) == if main_pair_fits(*info) {
                architecture_after(*info, old(self).architecture)
            } else {
                arch_fields(old(self).architecture)
            });
        }
        actions
    }

    /// The console information timed out ([`console_info_timed_out`]).
    fn console_info_timeout(&mut self) -> (actions: Vec<RuntimeAction>)
        requires
            old(self).wf(),
        ensures
            final(self).wf(),
            console_info_timed_out(*old(self), *final(self), actions@),
    {
        if !self.console_info_pending {
            return Vec::new();
        }
        self.console_info_pending = false;
        self.finish_connect()
    }
}

} // verus!

verus! {

/// `ts` are the cached tracks of `tracks`, each once, as Console 1 track fields.
pub open spec fn dump_of(ts: Seq<ConsoleTrackFields>, tracks: Map<usize, TrackInfo>) -> bool {
    exists|ids: Seq<usize>| {
        &&& ids.no_duplicates()
        &&& ids.to_set() == tracks.dom()
        &&& ts.len() == ids.len()
        &&& forall|k: int| 0 <= k < ids.len() ==> projects(#[trigger] ts[k], tracks[ids[k]])
    }
}

/// The buffered channel updates `buf` replayed in order into the core: each into the slots
/// that listen on its channel (per `index`); one whose channel has no slot is skipped.
pub open spec fn buffer_replayed(
    old: BridgeCore,
    new: BridgeCore,
    buf: Seq<(ParsedChannelDataMessage, u64)>,
    index: Map<usize, Vec<usize>>,
) -> bool
    decreases buf.len(),
{
    if buf.len() == 0 {
        new == old
    } else {
        exists|mid: BridgeCore| buffer_replayed(old, mid, buf.drop_last(), index)
            && #[trigger] entry_replayed(mid, new, buf.last(), index)
    }
}

/// One buffered update replayed into the slots that listen on its channel (none when its
/// channel has no slot).
pub open spec fn entry_replayed(old: BridgeCore, new: BridgeCore, e: (ParsedChannelDataMessage, u64), index: Map<usize, Vec<usize>>) -> bool {
    let m = e.0;
    if m.channel_index < 0 || !index.contains_key(m.channel_index as usize) {
        new == old
    } else {
        replayed_all(old, new, index[m.channel_index as usize]@, m.channel_index as usize, m.param_path@, m.format,
            m.value, e.1)
    }
}

/// The object IDs `0..n`.
pub open spec fn object_id_range(n: nat) -> Seq<usize> {
    Seq::new(n, |i: int| i as usize)
}

/// Finalizing initialization (only while initializing): the window closes, every slot gets
/// a track, the buffered updates are replayed ([`buffer_replayed`]) and dropped, and the
/// first time, the whole track cache is sent with a log line that gives `reason`.
pub open spec fn finalized(old: RuntimeState, new: RuntimeState, reason: Seq<char>, actions: Seq<RuntimeAction>) -> bool {
    if !old.is_initializing {
        new == old && actions.len() == 0
    } else {
        exists|c1: BridgeCore, c2: BridgeCore| {
            &&& #[trigger] tracks_ensured(old.core, c1, object_id_range(old.core.layout@.len()))
            &&& #[trigger] buffer_replayed(c1, c2, old.init_buffer@, old.object_ids_by_ms_channel@)
            &&& new.init_buffer@.len() == 0
            &&& if old.has_sent_initial_track_dump {
                &&& new == (RuntimeState { core: c2, is_initializing: false, init_buffer: new.init_buffer, ..old })
                &&& actions.len() == 0
            } else {
                &&& new == (RuntimeState {
                    core: c2,
                    is_initializing: false,
                    init_buffer: new.init_buffer,
                    has_sent_initial_track_dump: true,
                    ..old
                })
                &&& actions.len() == 2
                &&& is_log(actions[0], "Finalizing initialization ("@ + reason + "). Sending initial track dump..."@)
                &&& actions[1] matches RuntimeAction::SendTrackDump(p) && exists|ts: Seq<ConsoleTrackFields>|
                    #[trigger] in_chunks(chunk_views(p@), ts) && dump_of(ts, c2.track_cache.tracks())
            }
        }
    }
}

/// A control action: the OSD switches (logged), a handshake resend (OSD off), nothing for
/// re-affirming the status bank (the layout has none), finalizing initialization, or a
/// full resync unless one is already open.
pub open spec fn control_done(old: RuntimeState, new: RuntimeState, action: ControlAction, actions: Seq<RuntimeAction>) -> bool {
    match action {
        ControlAction::EnableOsd => new == (RuntimeState { osd_enabled: true, ..old }) && actions.len() == 1
            && is_log(actions[0], "Enabling OSD."@),
        ControlAction::DisableOsd => new == (RuntimeState { osd_enabled: false, ..old }) && actions.len() == 1
            && is_log(actions[0], "Disabling OSD."@),
        ControlAction::ResendHandshake => new == (RuntimeState { osd_enabled: false, ..old }) && actions.len() == 1
            && (actions[0] matches RuntimeAction::SendSysexJson(j) && is_handshake_json(j)),
        ControlAction::ReaffirmStatusBank => new == old && actions.len() == 0,
        ControlAction::FinalizeInitialization => finalized(old, new, "handshake ack"@, actions),
        ControlAction::ScheduleFullResync => if old.is_initializing {
            new == old && actions.len() == 0
        } else {
            &&& init_window_opened(old, new)
            &&& actions.len() == 2
            &&& is_log(actions[0], "[Lifecycle] Scheduling a full Console 1 resync."@)
            &&& actions[1] == RuntimeAction::ArmInitFlush(FORCE_RESYNC_FLUSH_DELAY_MS)
        },
    }
}

proof fn lemma_replay_keeps_settings(
    old: BridgeCore,
    new: BridgeCore,
    ids: Seq<usize>,
    channel: usize,
    param_path: Seq<char>,
    format: MsFormat,
    value: JsonValue,
    g: u64,
)
    requires
        replayed_all(old, new, ids, channel, param_path, format, value, g),
    ensures
        same_settings(old, new),
    decreases ids.len(),
{
    if ids.len() > 0 {
        let mid = choose|mid: BridgeCore| #[trigger] replay_step(mid, new, ids.last(), channel, param_path, format, value, g)
            && replayed_all(old, mid, ids.drop_last(), channel, param_path, format, value, g);
        lemma_replay_keeps_settings(old, mid, ids.drop_last(), channel, param_path, format, value, g);
        if !replay_skipped(mid, ids.last(), channel) {
            let (m1, ok) = choose|m1: BridgeCore, ok: bool| #[trigger] track_ensured(mid, m1, ids.last(), ok) && if !ok {
                new == m1
            } else {
                exists|t: TrackInfo, r: Option<crate::ms_param_apply::MsParamApplyResult>| {
                    &&& #[trigger] crate::bridge_core::override_applied(mid.config, mid.layout@[ids.last() as int], mid.bus_channel_start,
                        mid.send_mapping.ms_send_index_to_c1_slot@, m1.track_cache.tracks()[ids.last()], t, param_path, value,
                        Some(crate::bridge_core::value_format(format)), g, r)
                    &&& crate::midi_track_dispatch::track_stored(m1, new, ids.last(), t)
                }
            };
        }
    }
}

proof fn lemma_ensure_keeps_settings(old: BridgeCore, new: BridgeCore, ids: Seq<usize>)
    requires
        tracks_ensured(old, new, ids),
    ensures
        same_settings(old, new),
    decreases ids.len(),
{
    if ids.len() > 0 {
        let (mid, ok) = choose|mid: BridgeCore, ok: bool| #[trigger] track_ensured(mid, new, ids.last(), ok)
            && tracks_ensured(old, mid, ids.drop_last());
        lemma_ensure_keeps_settings(old, mid, ids.drop_last());
    }
}

fn copy_usizes(v: &Vec<usize>) -> (res: Vec<usize>)
    ensures
        res@ == v@,
{
    let mut out: Vec<usize> = Vec::new();
    let mut i: usize = 0;
    while i < v.len()
        invariant
            i <= v@.len(),
            out@ == v@.take(i as int),
        decreases v.len() - i,
    {
        out.push(v[i]);
        assert(out@ =~= v@.take(i + 1));
        i = i + 1;
    }
    assert(v@.take(i as int) =~= v@);
    out
}

/// Every cached track, as Console 1 track fields ([`dump_of`]).
fn track_dump(cache: &TrackCache) -> (res: Vec<ConsoleTrackFields>)
    requires
        cache.wf(),
    ensures
        dump_of(res@, cache.tracks()),
{
    let ids = cache.cached_object_ids();
    proof {
        cache.lemma_cached_tracks_wf();
    }
    let mut out: Vec<ConsoleTrackFields> = Vec::new();
    let mut i: usize = 0;
    while i < ids.len()
        invariant
            i <= ids@.len(),
            ids@.to_set() == cache.tracks().dom(),
            out@.len() == i,
            forall|id: usize| #[trigger] cache.tracks().contains_key(id) ==> cache.tracks()[id].wf(),
            forall|k: int| 0 <= k < i ==> projects(#[trigger] out@[k], cache.tracks()[ids@[k]]),
        decreases ids.len() - i,
    {
        let o = ids[i];
        assert(ids@.to_set().contains(o));
        match cache.get(o) {
            Some(t) => {
                out.push(ConsoleTrackFields::from_track(t));
            },
            None => {
                assert(false);
            },
        }
        i = i + 1;
    }
    out
}

fn object_ids_upto(n: usize) -> (res: Vec<usize>)
    ensures
        res@ == object_id_range(n as nat),
{
    let mut out: Vec<usize> = Vec::new();
    let mut i: usize = 0;
    while i < n
        invariant
            i <= n,
            out@ == object_id_range(i as nat),
        decreases n - i,
    {
        out.push(i);
        assert(out@ =~= object_id_range((i + 1) as nat));
        i = i + 1;
    }
    out
}

impl RuntimeState {
    /// Replays the buffered updates into the core ([`buffer_replayed`]) and empties the buffer.
    fn replay_buffer(&mut self, rng: &mut StdRng)
        requires
            old(self).wf(),
        ensures
            final(self).wf(),
            buffer_replayed(old(self).core, final(self).core, old(self).init_buffer@, old(self).object_ids_by_ms_channel@),
            final(self).init_buffer@.len() == 0,
            *final(self) == (RuntimeState { core: final(self).core, init_buffer: final(self).init_buffer, ..*old(self) }),
    {
        let mut buf: Vec<(ParsedChannelDataMessage, u64)> = Vec::new();
        std::mem::swap(&mut buf, &mut self.init_buffer);
        let ghost b = buf@;
        let ghost c0 = self.core;
        let ghost s1 = *self;
        let mut i: usize = 0;
        assert(b.take(0) =~= Seq::<(ParsedChannelDataMessage, u64)>::empty());
        while i < buf.len()
            invariant
                i <= b.len(),
                b == buf@,
                b == old(self).init_buffer@,
                self.wf(),
                s1.init_buffer@.len() == 0,
                *self == (RuntimeState { core: self.core, ..s1 }),
                s1 == (RuntimeState { init_buffer: s1.init_buffer, ..*old(self) }),
                buffer_replayed(c0, self.core, b.take(i as int), s1.object_ids_by_ms_channel@),
            decreases buf.len() - i,
        {
            let ghost mid = self.core;
            let m = &buf[i].0;
            let g = buf[i].1;
            let ghost index = s1.object_ids_by_ms_channel@;
            if m.channel_index >= 0 {
                let ch = m.channel_index as usize;
                match self.object_ids_by_ms_channel.get(&ch) {
                    Some(ids) => {
                        let ids = copy_usizes(ids);
                        assert(index.contains_key(ch) && ids@ == index[ch]@);
                        self.core.replay_update(ids.as_slice(), ch, m.param_path.as_str(), m.format, &m.value, g, rng);
                        proof {
                            lemma_replay_keeps_settings(mid, self.core, ids@, ch, m.param_path@, m.format, m.value, g);
                        }
                    },
                    None => {
                        assert(!index.contains_key(ch));
                    },
                }
            }
            proof {
                let t = b.take(i + 1);
                assert(t.drop_last() =~= b.take(i as int));
                assert(t.last() == b[i as int]);
                assert(buffer_replayed(c0, mid, t.drop_last(), index));
                assert(entry_replayed(mid, self.core, t.last(), index));
                assert(t.len() > 0);

            }
            i = i + 1;
        }
        assert(b.take(i as int) =~= b);
    }

    /// Finalizes initialization ([`finalized`]).
    fn finalize(&mut self, reason: &str, rng: &mut StdRng) -> (actions: Vec<RuntimeAction>)
        requires
            old(self).wf(),
        ensures
            final(self).wf(),
            finalized(*old(self), *final(self), reason@, actions@),
    {
        let mut actions: Vec<RuntimeAction> = Vec::new();
        if !self.is_initializing {
            return actions;
        }
        self.is_initializing = false;
        let all = object_ids_upto(self.core.layout.len());
        self.core.ensure_tracks(all.as_slice(), rng);
        let ghost c1 = self.core;
        proof {
            lemma_ensure_keeps_settings(old(self).core, c1, all@);
        }
        self.replay_buffer(rng);
        let ghost c2 = self.core;
        if !self.has_sent_initial_track_dump {
            let parts: Vec<&str> = vec!["Finalizing initialization (", reason, "). Sending initial track dump..."];
            let text = crate::text::concat_strs(parts.as_slice());
            proof {
                reveal_with_fuel(concat_views, 4);
                assert(parts@.drop_last().drop_last().drop_last() =~= Seq::<&str>::empty());
                assert(text@ =~= "Finalizing initialization ("@ + reason@ + "). Sending initial track dump..."@);
            }
            actions.push(RuntimeAction::Emit(BridgeEvent::Log(text)));
            let dump = track_dump(&self.core.track_cache);
            let ghost ts = dump@;
            let parts = into_chunks(dump);
            actions.push(RuntimeAction::SendTrackDump(parts));
            assert(actions@[1] matches RuntimeAction::SendTrackDump(p) && in_chunks(chunk_views(p@), ts)
                && dump_of(ts, self.core.track_cache.tracks()));
            self.has_sent_initial_track_dump = true;
        }
        assert(tracks_ensured(old(self).core, c1, object_id_range(old(self).core.layout@.len())));
        assert(buffer_replayed(c1, c2, old(self).init_buffer@, old(self).object_ids_by_ms_channel@));
        actions
    }

    /// Runs a control action ([`control_done`]).
    fn control(&mut self, action: ControlAction, rng: &mut StdRng) -> (actions: Vec<RuntimeAction>)
        requires
            old(self).wf(),
        ensures
            final(self).wf(),
            control_done(*old(self), *final(self), action, actions@),
    {
        let mut actions: Vec<RuntimeAction> = Vec::new();
        match action {
            ControlAction::EnableOsd => {
                self.osd_enabled = true;
                actions.push(log_action("Enabling OSD."));
            },
            ControlAction::DisableOsd => {
                self.osd_enabled = false;
                actions.push(log_action("Disabling OSD."));
            },
            ControlAction::ResendHandshake => {
                self.osd_enabled = false;
                actions.push(RuntimeAction::SendSysexJson(handshake_json()));
            },
            ControlAction::ReaffirmStatusBank => {},
            ControlAction::FinalizeInitialization => {
                return self.finalize("handshake ack", rng);
            },
            ControlAction::ScheduleFullResync => {
                if !self.is_initializing {
                    actions.push(log_action("[Lifecycle] Scheduling a full Console 1 resync."));
                    self.open_init_window();
                    actions.push(RuntimeAction::ArmInitFlush(FORCE_RESYNC_FLUSH_DELAY_MS));
                }
            },
        }
        actions
    }
}

} // verus!

verus! {

/// Queue `q` after queuing each of `us` in turn (with force flag `force`).
pub open spec fn updates_queued(
    q: Seq<(Seq<char>, QueuedView<JsonValue>)>,
    us: Seq<TrackUpdate>,
    force: bool,
) -> Seq<(Seq<char>, QueuedView<JsonValue>)>
    decreases us.len(),
{
    if us.len() == 0 {
        q
    } else {
        queued_after(updates_queued(q, us.drop_last(), force), us.last().track_id@, pairs_view(us.last().fields@), force)
    }
}

/// Bare queue `q` after queuing each of `bs` in turn.
pub open spec fn bares_queued(q: Seq<((Seq<char>, Seq<char>), JsonValue)>, bs: Seq<BareUpdate>) -> Seq<((Seq<char>, Seq<char>), JsonValue)>
    decreases bs.len(),
{
    if bs.len() == 0 {
        q
    } else {
        upsert(bares_queued(q, bs.drop_last()), (bs.last().track_id@, bs.last().field@), bs.last().value)
    }
}

/// A channel update while initializing: the channel counts as seen and the update is
/// buffered; once every channel of the layout has been seen, initialization finalizes.
pub open spec fn channel_buffered(
    old: RuntimeState,
    c1: BridgeCore,
    new: RuntimeState,
    msg: ParsedChannelDataMessage,
    gain: u64,
    actions: Seq<RuntimeAction>,
) -> bool {
    exists|m2: RuntimeState| {
        &&& m2 == (RuntimeState { core: c1, init_seen_ms_channels: m2.init_seen_ms_channels, init_buffer: m2.init_buffer, ..old })
        &&& #[trigger] m2.init_seen_ms_channels@ == old.init_seen_ms_channels@.insert(msg.channel_index)
        &&& m2.init_buffer@ == old.init_buffer@.push((msg, gain))
        &&& if m2.init_seen_ms_channels@.len() >= old.object_ids_by_ms_channel@.len() {
            finalized(m2, new, "received all layout channels"@, actions)
        } else {
            new == m2 && actions.len() == 0
        }
    }
}

/// A channel update once initialized: its echo verdict is taken ([`suppress_outcome`] of
/// its echo key), it is applied to every listening slot ([`fanned_out`]), the track and
/// bare updates are queued (not forced) and the requests sent.
pub open spec fn channel_applied(
    old: RuntimeState,
    c1: BridgeCore,
    new: RuntimeState,
    msg: ParsedChannelDataMessage,
    gain: u64,
    now: u64,
    actions: Seq<RuntimeAction>,
) -> bool {
    let ch = msg.channel_index;
    let ids = old.object_ids_by_ms_channel@[ch as usize]@;
    let (suppress, pending) = suppress_outcome(old.echo_tracker.pending(), echo_key(ch as u64, msg.param_path@, msg.format),
        msg.value, now);
    exists|us: Seq<TrackUpdate>, bs: Seq<BareUpdate>, rs: Seq<MsRequest>| {
        &&& #[trigger] fanned_out(c1, new.core, ids, ch as usize, msg.param_path@, msg.format, msg.value, suppress, gain, us, bs, rs)
        &&& new == (RuntimeState {
            core: new.core,
            echo_tracker: new.echo_tracker,
            update_queue: new.update_queue,
            bare_update_queue: new.bare_update_queue,
            ..old
        })
        &&& new.echo_tracker.pending() == pending
        &&& new.update_queue.view_entries() == updates_queued(old.update_queue.view_entries(), us, false)
        &&& new.bare_update_queue.view_entries() == bares_queued(old.bare_update_queue.view_entries(), bs)
        &&& requests_sent(actions, requests_view(rs))
    }
}

/// A channel-data update from Mixing Station: ignored when its channel has no slot;
/// otherwise the listening slots get tracks, and the update is buffered
/// ([`channel_buffered`]) or applied ([`channel_applied`]).
pub open spec fn channel_data_handled(
    old: RuntimeState,
    new: RuntimeState,
    msg: ParsedChannelDataMessage,
    gain: u64,
    now: u64,
    actions: Seq<RuntimeAction>,
) -> bool {
    let ch = msg.channel_index;
    let index = old.object_ids_by_ms_channel@;
    if ch < 0 || !index.contains_key(ch as usize) {
        new == old && actions.len() == 0
    } else {
        exists|c1: BridgeCore| #[trigger] tracks_ensured(old.core, c1, index[ch as usize]@) && if old.is_initializing {
            channel_buffered(old, c1, new, msg, gain, actions)
        } else {
            channel_applied(old, c1, new, msg, gain, now, actions)
        }
    }
}

impl RuntimeState {
    /// Queues track updates `us` (not forced).
    fn queue_updates(&mut self, us: Vec<TrackUpdate>, force: bool)
        requires
            old(self).wf(),
        ensures
            final(self).wf(),
            *final(self) == (RuntimeState { update_queue: final(self).update_queue, ..*old(self) }),
            final(self).update_queue.view_entries() == updates_queued(old(self).update_queue.view_entries(), us@, force),
    {
        let ghost u0 = us@;
        let ghost q0 = self.update_queue.view_entries();
        let ghost s0 = *self;
        let mut us = us;
        let total = us.len();
        let mut n: usize = 0;
        assert(u0.take(0) =~= Seq::<TrackUpdate>::empty());
        while us.len() > 0
            invariant
                n + us@.len() == u0.len(),
                u0.len() == total,
                us@ == u0.subrange(n as int, u0.len() as int),
                self.wf(),
                *self == (RuntimeState { update_queue: self.update_queue, ..s0 }),
                s0 == *old(self),
                q0 == old(self).update_queue.view_entries(),
                self.update_queue.view_entries() == updates_queued(q0, u0.take(n as int), force),
            decreases us.len(),
        {
            let ghost before = us@;
            let u = us.remove(0);
            assert(us@ =~= u0.subrange(n + 1, u0.len() as int));
            assert(u == u0[n as int]) by {
                assert(before[0] == u0[n as int]);
            }
            self.update_queue.queue(u.track_id, u.fields, force);
            assert(u0.take(n + 1).drop_last() =~= u0.take(n as int));
            n = n + 1;
        }
        assert(u0.take(n as int) =~= u0);
    }

    /// Queues bare updates `bs`.
    fn queue_bares(&mut self, bs: Vec<BareUpdate>)
        requires
            old(self).wf(),
        ensures
            final(self).wf(),
            *final(self) == (RuntimeState { bare_update_queue: final(self).bare_update_queue, ..*old(self) }),
            final(self).bare_update_queue.view_entries() == bares_queued(old(self).bare_update_queue.view_entries(), bs@),
    {
        let ghost b0 = bs@;
        let ghost q0 = self.bare_update_queue.view_entries();
        let ghost s0 = *self;
        let mut bs = bs;
        let total = bs.len();
        let mut n: usize = 0;
        assert(b0.take(0) =~= Seq::<BareUpdate>::empty());
        while bs.len() > 0
            invariant
                n + bs@.len() == b0.len(),
                b0.len() == total,
                bs@ == b0.subrange(n as int, b0.len() as int),
                self.wf(),
                *self == (RuntimeState { bare_update_queue: self.bare_update_queue, ..s0 }),
                s0 == *old(self),
                q0 == old(self).bare_update_queue.view_entries(),
                self.bare_update_queue.view_entries() == bares_queued(q0, b0.take(n as int)),
            decreases bs.len(),
        {
            let ghost before = bs@;
            let b = bs.remove(0);
            assert(bs@ =~= b0.subrange(n + 1, b0.len() as int));
            assert(b == b0[n as int]) by {
                assert(before[0] == b0[n as int]);
            }
            self.bare_update_queue.queue(b.track_id, b.field, b.value);
            assert(b0.take(n + 1).drop_last() =~= b0.take(n as int));
            n = n + 1;
        }
        assert(b0.take(n as int) =~= b0);
    }

    /// Handles a channel-data update ([`channel_data_handled`]).
    fn channel_data(&mut self, msg: ParsedChannelDataMessage, gain: u64, now: u64, rng: &mut StdRng) -> (actions: Vec<RuntimeAction>)
        requires
            old(self).wf(),
        ensures
            final(self).wf(),
            channel_data_handled(*old(self), *final(self), msg, gain, now, actions@),
    {
        let mut actions: Vec<RuntimeAction> = Vec::new();
        if msg.channel_index < 0 {
            return actions;
        }
        let ch = msg.channel_index as usize;
        let ids = match self.object_ids_by_ms_channel.get(&ch) {
            Some(v) => copy_usizes(v),
            None => {
                return actions;
            },
        };
        assert(self.object_ids_by_ms_channel@.contains_key(ch) && ids@ == self.object_ids_by_ms_channel@[ch]@);
        let ghost s0 = *self;
        self.core.ensure_tracks(ids.as_slice(), rng);
        let ghost c1 = self.core;
        proof {
            lemma_ensure_keeps_settings(s0.core, c1, ids@);
        }
        if self.is_initializing {
            self.init_seen_ms_channels.insert(msg.channel_index);
            self.init_buffer.push((msg, gain));
            let ghost m2 = *self;
            if self.init_seen_ms_channels.len() >= self.object_ids_by_ms_channel.len() {
                let acts = self.finalize("received all layout channels", rng);
                assert(channel_buffered(s0, c1, *self, msg, gain, acts@));
                return acts;
            }
            assert(channel_buffered(s0, c1, *self, msg, gain, actions@));
            return actions;
        }
        let key = build_echo_key(msg.channel_index as u64, msg.param_path.as_str(), msg.format);
        let suppress = self.echo_tracker.should_suppress(key.as_str(), &msg.value, now);
        let out = self.core.apply_channel_update(ids.as_slice(), ch, msg.param_path.as_str(), msg.format, &msg.value, suppress,
            gain, rng);
        let ghost us = out.updates@;
        let ghost bs = out.bares@;
        let ghost rs = out.requests@;
        let CoreOutput { updates, bares, requests } = out;
        self.queue_updates(updates, false);
        self.queue_bares(bares);
        push_requests(&mut actions, &requests);
        assert(actions@.skip(0) =~= actions@);
        proof {
            let (sp, pending) = suppress_outcome(s0.echo_tracker.pending(), echo_key(msg.channel_index as u64, msg.param_path@, msg.format),
                msg.value, now);
            assert(sp == suppress);
            assert(self.echo_tracker.pending() == pending);
            assert(fanned_out(c1, self.core, ids@, ch, msg.param_path@, msg.format, msg.value, suppress, gain, us, bs, rs));
            assert(requests_sent(actions@, requests_view(rs)));
            assert(self.update_queue.view_entries() == updates_queued(s0.update_queue.view_entries(), us, false));
            assert(self.bare_update_queue.view_entries() == bares_queued(s0.bare_update_queue.view_entries(), bs));
        }
        assert(channel_applied(s0, c1, *self, msg, gain, now, actions@));
        actions
    }
}

} // verus!

verus! {

/// Write queue `q` after queuing each of `ws` in turn (by path and format name).
pub open spec fn writes_queued(q: Seq<((Seq<char>, Seq<char>), JsonValue)>, ws: Seq<MsWrite>) -> Seq<((Seq<char>, Seq<char>), JsonValue)>
    decreases ws.len(),
{
    if ws.len() == 0 {
        q
    } else {
        upsert(writes_queued(q, ws.drop_last()), (ws.last().path@, format_name(ws.last().format)), ws.last().value)
    }
}

/// A track message's output: its track updates (not forced), bare updates and writes are
/// queued, its requests sent.
pub open spec fn track_output_queued(old: RuntimeState, new: RuntimeState, out: MidiTrackOutput, actions: Seq<RuntimeAction>) -> bool {
    &&& new == (RuntimeState {
        update_queue: new.update_queue,
        bare_update_queue: new.bare_update_queue,
        ms_write_queue: new.ms_write_queue,
        ..old
    })
    &&& new.update_queue.view_entries() == updates_queued(old.update_queue.view_entries(), out.updates@, false)
    &&& new.bare_update_queue.view_entries() == bares_queued(old.bare_update_queue.view_entries(), out.bares@)
    &&& new.ms_write_queue.view_entries() == writes_queued(old.ms_write_queue.view_entries(), out.writes@)
    &&& requests_sent(actions, requests_view(out.requests@))
}

impl RuntimeState {
    /// Queues Mixing Station writes `ws`.
    fn queue_writes(&mut self, ws: Vec<MsWrite>)
        requires
            old(self).wf(),
        ensures
            final(self).wf(),
            *final(self) == (RuntimeState { ms_write_queue: final(self).ms_write_queue, ..*old(self) }),
            final(self).ms_write_queue.view_entries() == writes_queued(old(self).ms_write_queue.view_entries(), ws@),
    {
        let ghost w0 = ws@;
        let ghost q0 = self.ms_write_queue.view_entries();
        let ghost s0 = *self;
        let mut ws = ws;
        let total = ws.len();
        let mut n: usize = 0;
        assert(w0.take(0) =~= Seq::<MsWrite>::empty());
        while ws.len() > 0
            invariant
                n + ws@.len() == w0.len(),
                w0.len() == total,
                ws@ == w0.subrange(n as int, w0.len() as int),
                self.wf(),
                *self == (RuntimeState { ms_write_queue: self.ms_write_queue, ..s0 }),
                s0 == *old(self),
                q0 == old(self).ms_write_queue.view_entries(),
                self.ms_write_queue.view_entries() == writes_queued(q0, w0.take(n as int)),
            decreases ws.len(),
        {
            let ghost before = ws@;
            let w = ws.remove(0);
            assert(ws@ =~= w0.subrange(n + 1, w0.len() as int));
            assert(w == w0[n as int]) by {
                assert(before[0] == w0[n as int]);
            }
            let format = crate::text::owned(ms_format_name(w.format));
            self.ms_write_queue.queue(w.path, format, w.value);
            assert(w0.take(n + 1).drop_last() =~= w0.take(n as int));
            n = n + 1;
        }
        assert(w0.take(n as int) =~= w0);
    }

    /// Queues a track message's output ([`track_output_queued`]).
    fn queue_track_output(&mut self, out: MidiTrackOutput) -> (actions: Vec<RuntimeAction>)
        requires
            old(self).wf(),
        ensures
            final(self).wf(),
            track_output_queued(*old(self), *final(self), out, actions@),
    {
        let ghost o = out;
        let MidiTrackOutput { updates, bares, requests, writes } = out;
        self.queue_updates(updates, false);
        self.queue_bares(bares);
        self.queue_writes(writes);
        let mut actions: Vec<RuntimeAction> = Vec::new();
        push_requests(&mut actions, &requests);
        assert(actions@.skip(0) =~= actions@);
        actions
    }
}

/// `a` alone when `c`, else nothing.
pub open spec fn action_if(c: bool, a: RuntimeAction) -> Seq<RuntimeAction> {
    if c { seq![a] } else { Seq::empty() }
}

/// The flush timers of the queues of `s` that hold something are armed: track updates,
/// then bare updates, then writes.
pub open spec fn flushes_armed(s: RuntimeState, actions: Seq<RuntimeAction>) -> bool {
    actions == action_if(s.update_queue.view_entries().len() > 0, RuntimeAction::ArmUpdateFlush)
        + action_if(s.bare_update_queue.view_entries().len() > 0, RuntimeAction::ArmBareFlush)
        + action_if(s.ms_write_queue.view_entries().len() > 0, RuntimeAction::ArmWriteFlush)
}

impl RuntimeState {
    /// Arms the flush timers of the queues that hold something ([`flushes_armed`]).
    fn arm_flushes(&self, actions: &mut Vec<RuntimeAction>)
        ensures
            final(actions)@.len() >= old(actions)@.len(),
            final(actions)@.take(old(actions)@.len() as int) == old(actions)@,
            flushes_armed(*self, final(actions)@.skip(old(actions)@.len() as int)),
    {
        let ghost n = actions@.len() as int;
        let u = !self.update_queue.is_empty();
        let b = !self.bare_update_queue.is_empty();
        let w = !self.ms_write_queue.is_empty();
        if u {
            actions.push(RuntimeAction::ArmUpdateFlush);
        }
        let ghost n1 = actions@.len() as int;
        if b {
            actions.push(RuntimeAction::ArmBareFlush);
        }
        let ghost n2 = actions@.len() as int;
        if w {
            actions.push(RuntimeAction::ArmWriteFlush);
        }
        assert(actions@.take(n) =~= old(actions)@);
        assert(actions@.skip(n) =~= action_if(u, RuntimeAction::ArmUpdateFlush) + action_if(b, RuntimeAction::ArmBareFlush)
            + action_if(w, RuntimeAction::ArmWriteFlush));
    }

    /// Queues track updates and arms the flush timers.
    fn queue_and_arm(&mut self, updates: Vec<TrackUpdate>, force: bool) -> (actions: Vec<RuntimeAction>)
        requires
            old(self).wf(),
        ensures
            final(self).wf(),
            *final(self) == (RuntimeState { update_queue: final(self).update_queue, ..*old(self) }),
            final(self).update_queue.view_entries() == updates_queued(old(self).update_queue.view_entries(), updates@, force),
            flushes_armed(*final(self), actions@),
    {
        self.queue_updates(updates, force);
        let mut actions: Vec<RuntimeAction> = Vec::new();
        self.arm_flushes(&mut actions);
        assert(actions@.skip(0) =~= actions@);
        actions
    }

    /// The initialization timer fired: finalize, then arm the flush timers.
    fn init_flush_due(&mut self, rng: &mut StdRng) -> (actions: Vec<RuntimeAction>)
        requires
            old(self).wf(),
        ensures
            final(self).wf(),
            exists|k: int| 0 <= k <= actions@.len() && #[trigger] finalized(*old(self), *final(self), "timeout"@, actions@.take(k))
                && flushes_armed(*final(self), actions@.skip(k)),
    {
        let mut actions = self.finalize("timeout", rng);
        let ghost k = actions@.len() as int;
        let ghost a0 = actions@;
        self.arm_flushes(&mut actions);
        assert(actions@.take(k) == a0);
        actions
    }
}

/// What one event does to the runtime's state and which actions it asks of the host.
pub open spec fn runtime_transition(old: RuntimeState, event: RuntimeEvent, new: RuntimeState, actions: Seq<RuntimeAction>) -> bool {
    match event {
        RuntimeEvent::Start(patch) => started(old, new, patch, actions),
        RuntimeEvent::Stop => standby_entered(old, new, actions),
        RuntimeEvent::ConfigApply(patch) => config_applied(old, new, patch, actions),
        RuntimeEvent::Control(action) => control_done(old, new, action, actions),
        RuntimeEvent::WsConnected => ws_opened(old, new, actions),
        RuntimeEvent::ConsoleInformation(info) => console_info_received(old, new, info, actions),
        RuntimeEvent::ConsoleInfoTimeout => console_info_timed_out(old, new, actions),
        RuntimeEvent::ChannelData { message, gain_norm_bits, now } => channel_data_handled(old, new, message,
            gain_norm_bits, now, actions),
        RuntimeEvent::TrackOutput(out) => track_output_queued(old, new, out, actions),
        RuntimeEvent::WsDisconnected => ws_lost(old, new, actions),
        RuntimeEvent::WsEngineGone => new == (RuntimeState { ws_engine: false, ws_connected: false, ..old })
            && actions.len() == 0,
        RuntimeEvent::InitFlushDue => exists|k: int| 0 <= k <= actions.len()
            && #[trigger] finalized(old, new, "timeout"@, actions.take(k)) && flushes_armed(new, actions.skip(k)),
        RuntimeEvent::QueueUpdates { updates, force } => {
            &&& new == (RuntimeState { update_queue: new.update_queue, ..old })
            &&& new.update_queue.view_entries() == updates_queued(old.update_queue.view_entries(), updates@, force)
            &&& flushes_armed(new, actions)
        },
        RuntimeEvent::InboundHandled => new == old && flushes_armed(old, actions),
        RuntimeEvent::FlushUpdates => updates_flushed(old, new, actions),
        RuntimeEvent::FlushBare => bares_flushed(old, new, actions),
        RuntimeEvent::FlushWrites { now } => writes_flushed(old, new, now, actions),
        RuntimeEvent::Shutdown => shut_down(old, new, actions),
    }
}

/// Runs one event through the runtime ([`runtime_transition`]); the host performs the
/// returned actions in order.
pub fn runtime_step(state: &mut RuntimeState, event: RuntimeEvent, rng: &mut StdRng) -> (actions: Vec<RuntimeAction>)
    requires
        old(state).wf(),
    ensures
        final(state).wf(),
        runtime_transition(*old(state), event, *final(state), actions@),
{
    match event {
        RuntimeEvent::Start(patch) => state.start(patch),
        RuntimeEvent::Stop => state.enter_standby(),
        RuntimeEvent::ConfigApply(patch) => state.apply_config(patch),
        RuntimeEvent::Control(action) => state.control(action, rng),
        RuntimeEvent::WsConnected => state.ws_open(),
        RuntimeEvent::ConsoleInformation(info) => state.receive_console_info(&info),
        RuntimeEvent::ConsoleInfoTimeout => state.console_info_timeout(),
        RuntimeEvent::ChannelData { message, gain_norm_bits, now } => state.channel_data(message, gain_norm_bits, now, rng),
        RuntimeEvent::TrackOutput(out) => state.queue_track_output(out),
        RuntimeEvent::WsDisconnected => state.ws_lose(),
        RuntimeEvent::WsEngineGone => {
            state.ws_engine = false;
            state.ws_connected = false;
            Vec::new()
        },
        RuntimeEvent::InitFlushDue => state.init_flush_due(rng),
        RuntimeEvent::QueueUpdates { updates, force } => state.queue_and_arm(updates, force),
        RuntimeEvent::InboundHandled => {
            let mut actions: Vec<RuntimeAction> = Vec::new();
            state.arm_flushes(&mut actions);
            assert(actions@.skip(0) =~= actions@);
            actions
        },
        RuntimeEvent::FlushUpdates => state.flush_updates(),
        RuntimeEvent::FlushBare => state.flush_bare(),
        RuntimeEvent::FlushWrites { now } => state.flush_writes(now),
        RuntimeEvent::Shutdown => state.shutdown(),
    }
}

} // verus!

verus! {

impl RuntimeState {
    /// A runtime in standby with configuration `config`, the default architecture, the
    /// layout built from them (empty when the built one is inconsistent), no tracks, no
    /// connection, and empty queues.
    pub fn new(config: RuntimeConfig) -> (res: Self)
        ensures
            res.wf(),
            res.core.config == config,
            res.core.lifecycle == Lifecycle::Standby,
            is_default_architecture(res.architecture),
            layout_matches(&config, &res.architecture, res.core.layout@) || (res.core.layout@.len() == 0
                && exists|slots: Seq<LayoutSlot>| #[trigger] layout_matches(&config, &res.architecture, slots)
                && !layout_ok(slots, res.architecture.bus_channel_start as usize)),
            is_channel_index(res.object_ids_by_ms_channel@, res.core.layout@),
            res.core.track_cache.tracks().len() == 0,
            res.core.track_cache.registry().entries().len() == 0,
            res.core.sends_mode_ms_send_index is None,
            res.core.sends_mode_subscribed_ms_send_index is None,
            mapping_built(res.core.send_mapping, config@.c1_send_to_ms_bus_number, res.architecture),
            !res.osd_enabled && !res.console_info_pending && !res.ws_engine && !res.ws_connected,
            !res.is_initializing && !res.has_sent_initial_track_dump,
            res.init_buffer@.len() == 0,
            res.init_seen_ms_channels@.is_empty(),
            res.update_queue.view_entries().len() == 0,
            res.bare_update_queue.view_entries().len() == 0,
            res.ms_write_queue.view_entries().len() == 0,
            res.echo_tracker.pending().len() == 0,
    {
        let architecture = default_architecture();
        let send_mapping = build_send_mapping(config.c1_send_to_ms_bus_number.as_slice(), 16);
        let ghost cfg = config;
        let core = BridgeCore {
            layout: Vec::new(),
            track_cache: TrackCache::new(),
            lifecycle: Lifecycle::Standby,
            config,
            bus_channel_start: 48,
            input_channel_count: 32,
            sends_mode_ms_send_index: None,
            sends_mode_subscribed_ms_send_index: None,
            input_send_state: crate::sends_mode::InputSendState::new(),
            input_std_state: crate::bridge_core::InputStdState::new(),
            send_mapping,
        };
        let mut state = RuntimeState {
            core,
            architecture,
            osd_enabled: false,
            console_info_pending: false,
            ws_engine: false,
            ws_connected: false,
            is_initializing: false,
            init_buffer: Vec::new(),
            has_sent_initial_track_dump: false,
            update_queue: UpdateQueue::new(),
            bare_update_queue: BareUpdateQueue::new(),
            ms_write_queue: MsWriteQueue::new(),
            echo_tracker: EchoSuppressionTracker::new(),
            object_ids_by_ms_channel: HashMap::new(),
            init_seen_ms_channels: HashSet::new(),
        };
        assert(layout_ok(state.core.layout@, 48));
        state.rebuild_layout();
        proof {
            assert(state.core.track_cache.tracks() =~= Map::<usize, TrackInfo>::empty());
        }
        state
    }
}

} // verus!

verus! {

/// What a Console 1 JSON message asks of the runtime.
pub enum MidiRoute {
    /// A control message: `actions` run in turn, then, when there is one, the metering
    /// selection becomes `active_meters`.
    Control { actions: Vec<ControlAction>, active_meters: Option<Vec<String>> },
    /// A metering selection alone.
    ActiveMeters(Vec<String>),
    /// A track message for this slot.
    Track(usize),
    /// Nothing to do.
    Ignored,
}

/// `v` holds the texts `ids`.
pub open spec fn texts_are(v: Seq<String>, ids: Seq<Seq<char>>) -> bool {
    v.map_values(|s: String| s@) == ids
}

/// `o` is a slot of the layout that is not padding and has trackId `t`.
pub open spec fn track_slot_for(s: RuntimeState, t: Seq<char>, o: usize) -> bool {
    &&& s.core.track_cache.registry().track_id_of(o) == Some(t)
    &&& o < s.core.layout@.len()
    &&& s.core.layout@[o as int].kind != LayoutSlotKind::Empty
}

/// How a message is read: a control message decides its control actions (by lifecycle
/// and whether the initial dump went out) and, unless it is a reset, enable or disable,
/// carries its metering selection along; otherwise a metering selection stands alone;
/// otherwise a message whose `trackId` names a non-padding slot goes to that slot; anything
/// else is ignored.
pub open spec fn midi_routed(s: RuntimeState, parsed: JsonValue, r: MidiRoute) -> bool {
    match control_message_of(parsed) {
        Some(c) => r matches MidiRoute::Control { actions, active_meters } && {
            &&& actions@ == control_actions(c, s.core.lifecycle, s.has_sent_initial_track_dump)
            &&& if c is HandshakeAck {
                match active_meters_of(parsed) {
                    Some(ids) => active_meters matches Some(v) && texts_are(v@, ids),
                    None => active_meters is None,
                }
            } else {
                active_meters is None
            }
        },
        None => match active_meters_of(parsed) {
            Some(ids) => r matches MidiRoute::ActiveMeters(v) && texts_are(v@, ids),
            None => match parsed.spec_get("trackId"@) {
                Some(JsonValue::Str(t)) => {
                    &&& (r is Track) == exists|o: usize| track_slot_for(s, t@, o)
                    &&& r matches MidiRoute::Track(o) ==> track_slot_for(s, t@, o)
                    &&& !(r is Track) ==> r is Ignored
                },
                _ => r is Ignored,
            },
        },
    }
}

/// Reads a Console 1 JSON message ([`midi_routed`]).
pub fn route_midi_json(state: &RuntimeState, parsed: &JsonValue) -> (res: MidiRoute)
    requires
        state.wf(),
    ensures
        midi_routed(*state, *parsed, res),
{
    if let Some(control) = parse_control_message(parsed) {
        let actions = decide_control_actions(control, state.core.lifecycle, state.has_sent_initial_track_dump);
        let active_meters = match control {
            ParsedControlMessage::HandshakeAck => parse_active_meters(parsed),
            _ => None,
        };
        return MidiRoute::Control { actions, active_meters };
    }
    if let Some(ids) = parse_active_meters(parsed) {
        return MidiRoute::ActiveMeters(ids);
    }
    let track_id = match parsed.get("trackId") {
        Some(v) => match v.as_str() {
            Some(t) => t,
            None => {
                return MidiRoute::Ignored;
            },
        },
        None => {
            return MidiRoute::Ignored;
        },
    };
    let ghost t = track_id@;
    proof {
        state.core.track_cache.lemma_cached_tracks_wf();
    }
    match state.core.track_cache.object_id_for_track_id(track_id) {
        Some(o) => {
            if o < state.core.layout.len() && state.core.layout[o].kind != LayoutSlotKind::Empty {
                assert(track_slot_for(*state, t, o));
                MidiRoute::Track(o)
            } else {
                proof {
                    assert forall|o2: usize| !track_slot_for(*state, t, o2) by {
                        if track_slot_for(*state, t, o2) && o2 != o {
                            crate::track_id::lemma_track_ids_distinct(state.core.track_cache.registry(), o, o2);
                        }
                    }
                }
                MidiRoute::Ignored
            }
        },
        None => {
            assert forall|o2: usize| !track_slot_for(*state, t, o2) by {}
            MidiRoute::Ignored
        },
    }
}

} // verus!
