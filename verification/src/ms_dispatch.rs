//! Mixing Station messages reaching the bridge: which kind of message a path carries, the
//! replay of values buffered while the bridge initializes, and the fan-out of one channel
//! update to every slot listening on the channel.

use crate::bridge_core::{same_settings, BridgeCore, CoreOutput, TrackUpdate, BareUpdate, channel_update_applied, override_applied,
    track_ensured, update_skipped, value_format, apply_ms_param_with_overrides};
use crate::channel_data_message::MsFormat;
use crate::json::JsonValue;
use crate::ms_param_apply::MsValueFormat;
use crate::ms_requests::MsRequest;
use crate::midi_track_dispatch::track_stored;
use crate::text::{chars_of, occurs_at, occurs_at_exec, str_eq};
use crate::track_cache::TrackInfo;
use rand::rngs::StdRng;
use vstd::prelude::*;

verus! {

/// Replaying a buffered Mixing Station value into slot `o` reaches it unless there is no
/// such slot or the slot listens on another primary channel.
pub open spec fn replay_skipped(core: BridgeCore, o: usize, channel: usize) -> bool {
    ||| o >= core.layout@.len()
    ||| (core.layout@[o as int].ms_primary matches Some(p) && channel != p)
}

/// A buffered value replayed into slot `o`: the slot gets a track ([`track_ensured`]),
/// and the value is applied to it after the per-slot overrides ([`override_applied`]),
/// with nothing reported and no sends-mode handling.
pub open spec fn replayed(
    old: BridgeCore,
    new: BridgeCore,
    o: usize,
    param_path: Seq<char>,
    format: MsFormat,
    value: JsonValue,
    gain_norm_bits: u64,
) -> bool {
    exists|m1: BridgeCore, ok: bool| #[trigger] track_ensured(old, m1, o, ok) && if !ok {
        new == m1
    } else {
        exists|t: TrackInfo, r: Option<crate::ms_param_apply::MsParamApplyResult>| {
            &&& #[trigger] override_applied(old.config, old.layout@[o as int], old.bus_channel_start,
                old.send_mapping.ms_send_index_to_c1_slot@, m1.track_cache.tracks()[o], t, param_path, value,
                Some(value_format(format)), gain_norm_bits, r)
            &&& track_stored(m1, new, o, t)
        }
    }
}

/// What a Mixing Station message carries, by its path.
#[derive(Debug, Clone, Copy, PartialEq, Eq, Structural)]
pub enum WsRoute {
    /// The console-information reply.
    ConsoleInformation,
    /// A metering push; `ours` when it is for the bridge's own subscription (ID 0).
    Metering2 { ours: bool },
    /// Anything else, read as channel data.
    ChannelData,
}

/// The text after the last `/` of `path` (all of it when there is none).
pub open spec fn last_segment(path: Seq<char>) -> Seq<char>
    decreases path.len(),
{
    if path.len() == 0 {
        path
    } else if path.last() == '/' {
        Seq::empty()
    } else {
        last_segment(path.drop_last()).push(path.last())
    }
}

/// `seg` without its leading sign, if it has one.
pub open spec fn unsigned_part(seg: Seq<char>) -> Seq<char> {
    if seg.len() > 0 && (seg[0] == '+' || seg[0] == '-') { seg.drop_first() } else { seg }
}

/// `seg` reads as the integer 0: an optional sign and at least one digit, every digit `0`.
pub open spec fn reads_as_zero(seg: Seq<char>) -> bool {
    unsigned_part(seg).len() > 0 && forall|i: int| 0 <= i < unsigned_part(seg).len() ==> #[trigger] unsigned_part(seg)[i] == '0'
}

/// The route of a message with path `path`.
pub open spec fn ws_route(path: Seq<char>) -> WsRoute {
    if path == "/console/information"@ {
        WsRoute::ConsoleInformation
    } else if occurs_at(path, "/console/metering2/"@, 0) {
        WsRoute::Metering2 { ours: reads_as_zero(last_segment(path)) }
    } else {
        WsRoute::ChannelData
    }
}

/// The route of a Mixing Station message by its path ([`ws_route`]).
pub fn route_ws_path(path: &str) -> (res: WsRoute)
    ensures
        res == ws_route(path@),
{
    proof {
        reveal_strlit("/console/information");
        reveal_strlit("/console/metering2/");
    }
    if str_eq(path, "/console/information") {
        return WsRoute::ConsoleInformation;
    }
    let p = chars_of(path);
    let prefix = chars_of("/console/metering2/");
    if !(p.len() >= prefix.len() && occurs_at_exec(p.as_slice(), prefix.as_slice(), 0)) {
        return WsRoute::ChannelData;
    }
    let mut start: usize = p.len();
    assert(p@.subrange(0, p@.len() as int) =~= p@);
    assert(last_segment(p@) =~= last_segment(p@.subrange(0, start as int)) + p@.subrange(start as int, p@.len() as int));
    while start > 0 && p[start - 1] != '/'
        invariant
            start <= p@.len(),
            last_segment(p@) == last_segment(p@.subrange(0, start as int)) + p@.subrange(start as int, p@.len() as int),
        decreases start,
    {
        proof {
            let q = p@.subrange(0, start as int);
            assert(q.drop_last() =~= p@.subrange(0, start - 1));
            assert(p@.subrange(start - 1, p@.len() as int) =~= seq![q.last()] + p@.subrange(start as int, p@.len() as int));
            assert(last_segment(q) == last_segment(q.drop_last()).push(q.last()));
            assert(last_segment(q.drop_last()).push(q.last()) + p@.subrange(start as int, p@.len() as int)
                =~= last_segment(q.drop_last()) + p@.subrange(start - 1, p@.len() as int));
        }
        start = start - 1;
    }
    proof {
        let q = p@.subrange(0, start as int);
        assert(last_segment(q) =~= Seq::<char>::empty());
        assert(last_segment(p@) =~= p@.subrange(start as int, p@.len() as int));
    }
    let mut i = start;
    if i < p.len() && (p[i] == '+' || p[i] == '-') {
        i = i + 1;
    }
    let ghost seg = p@.subrange(start as int, p@.len() as int);
    let ghost digits = unsigned_part(seg);
    assert(digits =~= p@.subrange(i as int, p@.len() as int));
    let mut ours = i < p.len();
    let mut j = i;
    while j < p.len()
        invariant
            i <= j <= p@.len(),
            ours == (i < p@.len() && forall|k: int| i <= k < j ==> p@[k] == '0'),
        decreases p.len() - j,
    {
        if p[j] != '0' {
            ours = false;
        }
        j = j + 1;
    }
    proof {
        assert(digits.len() == p@.len() - i);
        if ours {
            assert forall|k: int| 0 <= k < digits.len() implies digits[k] == '0' by {
                assert(digits[k] == p@[i + k]);
            }
            assert(reads_as_zero(seg));
        } else if i < p@.len() {
            if reads_as_zero(seg) {
                assert forall|k: int| i <= k < p@.len() implies p@[k] == '0' by {
                    assert(digits[k - i] == p@[k]);
                }
            }
        } else {
            assert(!reads_as_zero(seg));
        }
    }
    WsRoute::Metering2 { ours }
}

impl BridgeCore {
    /// Replays one value buffered during initialization into slot `o`: nothing when the
    /// slot does not take it ([`replay_skipped`]); otherwise as [`replayed`] says.
    pub fn replay_update_to_slot(
        &mut self,
        o: usize,
        channel: usize,
        param_path: &str,
        format: MsFormat,
        value: &JsonValue,
        gain_norm_bits: u64,
        rng: &mut StdRng,
    )
        requires
            old(self).wf(),
        ensures
            final(self).wf(),
            replay_skipped(*old(self), o, channel) ==> *final(self) == *old(self),
            !replay_skipped(*old(self), o, channel) ==> replayed(*old(self), *final(self), o, param_path@, format, *value,
                gain_norm_bits),
    {
        if o >= self.layout.len() {
            return;
        }
        if let Some(p) = self.layout[o].ms_primary {
            if channel != p {
                return;
            }
        }
        let ok = self.ensure_track(o, rng);
        let ghost m1 = *self;
        if !ok {
            assert(track_ensured(*old(self), m1, o, ok));
            return;
        }
        let mut track = match self.track_cache.take(o) {
            Some(t) => t,
            None => {
                assert(false);
                return;
            },
        };
        let vf = match format {
            MsFormat::Val => MsValueFormat::Val,
            MsFormat::Norm => MsValueFormat::Norm,
        };
        assert(self.layout@[o as int] == old(self).layout@[o as int]);
        let r = apply_ms_param_with_overrides(&mut track, &self.layout[o], &self.config, self.bus_channel_start,
            &self.send_mapping, param_path, Some(vf), value, gain_norm_bits);
        let ghost t = track;
        self.track_cache.put(o, track);
        proof {
            assert(self.track_cache.tracks() =~= m1.track_cache.tracks().insert(o, t));
            assert(track_ensured(*old(self), m1, o, ok));
            assert(override_applied(old(self).config, old(self).layout@[o as int], old(self).bus_channel_start,
                old(self).send_mapping.ms_send_index_to_c1_slot@, m1.track_cache.tracks()[o], t, param_path@, *value,
                Some(value_format(format)), gain_norm_bits, r));
            assert(track_stored(m1, *self, o, t));
        }
    }
}

/// One slot's part of a channel update: nothing when the update does not reach the slot
/// ([`update_skipped`]), otherwise as [`channel_update_applied`] says.
pub open spec fn slot_update_step(
    old: BridgeCore,
    new: BridgeCore,
    o: usize,
    channel: usize,
    param_path: Seq<char>,
    format: MsFormat,
    value: JsonValue,
    suppress: bool,
    gain_norm_bits: u64,
    out: CoreOutput,
) -> bool {
    if update_skipped(old, o, channel, param_path) {
        new == old && out.updates@.len() == 0 && out.bares@.len() == 0 && out.requests@.len() == 0
    } else {
        channel_update_applied(old, new, o, channel, param_path, format, value, suppress, gain_norm_bits, out)
    }
}

/// A channel update applied to slots `ids` in turn ([`slot_update_step`]), the outputs
/// collected in order.
pub open spec fn fanned_out(
    old: BridgeCore,
    new: BridgeCore,
    ids: Seq<usize>,
    channel: usize,
    param_path: Seq<char>,
    format: MsFormat,
    value: JsonValue,
    suppress: bool,
    gain_norm_bits: u64,
    updates: Seq<TrackUpdate>,
    bares: Seq<BareUpdate>,
    requests: Seq<MsRequest>,
) -> bool
    decreases ids.len(),
{
    if ids.len() == 0 {
        new == old && updates.len() == 0 && bares.len() == 0 && requests.len() == 0
    } else {
        exists|mid: BridgeCore, out: CoreOutput| {
            &&& #[trigger] slot_update_step(mid, new, ids.last(), channel, param_path, format, value, suppress,
                gain_norm_bits, out)
            &&& updates.len() >= out.updates@.len() && bares.len() >= out.bares@.len()
                && requests.len() >= out.requests@.len()
            &&& updates.skip(updates.len() - out.updates@.len()) == out.updates@
            &&& bares.skip(bares.len() - out.bares@.len()) == out.bares@
            &&& requests.skip(requests.len() - out.requests@.len()) == out.requests@
            &&& fanned_out(old, mid, ids.drop_last(), channel, param_path, format, value, suppress, gain_norm_bits,
                updates.take(updates.len() - out.updates@.len()), bares.take(bares.len() - out.bares@.len()),
                requests.take(requests.len() - out.requests@.len()))
        }
    }
}

impl BridgeCore {
    /// Applies one Mixing Station channel update to every slot in `object_ids` (the slots
    /// listening on the channel), in order ([`fanned_out`]).
    pub fn apply_channel_update(
        &mut self,
        object_ids: &[usize],
        channel: usize,
        param_path: &str,
        format: MsFormat,
        value: &JsonValue,
        suppress: bool,
        gain_norm_bits: u64,
        rng: &mut StdRng,
    ) -> (res: CoreOutput)
        requires
            old(self).wf(),
            2 * old(self).input_channel_count <= usize::MAX,
        ensures
            final(self).wf(),
            same_settings(*old(self), *final(self)),
            fanned_out(*old(self), *final(self), object_ids@, channel, param_path@, format, *value, suppress,
                gain_norm_bits, res.updates@, res.bares@, res.requests@),
    {
        let mut updates: Vec<TrackUpdate> = Vec::new();
        let mut bares: Vec<BareUpdate> = Vec::new();
        let mut requests: Vec<MsRequest> = Vec::new();
        let mut i: usize = 0;
        assert(object_ids@.take(0) =~= Seq::<usize>::empty());
        while i < object_ids.len()
            invariant
                i <= object_ids@.len(),
                self.wf(),
                self.input_channel_count == old(self).input_channel_count,
                same_settings(*old(self), *self),
                2 * old(self).input_channel_count <= usize::MAX,
                fanned_out(*old(self), *self, object_ids@.take(i as int), channel, param_path@, format, *value, suppress,
                    gain_norm_bits, updates@, bares@, requests@),
            decreases object_ids.len() - i,
        {
            let ghost mid = *self;
            let ghost (u0, b0, r0) = (updates@, bares@, requests@);
            let out = self.apply_channel_update_to_slot(object_ids[i], channel, param_path, format, value, suppress,
                gain_norm_bits, rng);
            let ghost go = out;
            let CoreOutput { updates: mut u, bares: mut b, requests: mut r } = out;
            updates.append(&mut u);
            bares.append(&mut b);
            requests.append(&mut r);
            proof {
                let ids = object_ids@.take(i + 1);
                assert(ids.drop_last() =~= object_ids@.take(i as int));
                assert(ids.last() == object_ids@[i as int]);
                assert(slot_update_step(mid, *self, ids.last(), channel, param_path@, format, *value, suppress,
                    gain_norm_bits, go));
                assert(updates@.skip(updates@.len() - go.updates@.len()) =~= go.updates@);
                assert(bares@.skip(bares@.len() - go.bares@.len()) =~= go.bares@);
                assert(requests@.skip(requests@.len() - go.requests@.len()) =~= go.requests@);
                assert(updates@.take(updates@.len() - go.updates@.len()) =~= u0);
                assert(bares@.take(bares@.len() - go.bares@.len()) =~= b0);
                assert(requests@.take(requests@.len() - go.requests@.len()) =~= r0);
                assert(fanned_out(*old(self), *self, ids, channel, param_path@, format, *value, suppress, gain_norm_bits,
                    updates@, bares@, requests@));
            }
            i = i + 1;
        }
        assert(object_ids@.take(i as int) =~= object_ids@);
        CoreOutput { updates, bares, requests }
    }
}

/// A buffered value replayed into slot `o`, as [`replay_update_to_slot`] does.
pub open spec fn replay_step(
    old: BridgeCore,
    new: BridgeCore,
    o: usize,
    channel: usize,
    param_path: Seq<char>,
    format: MsFormat,
    value: JsonValue,
    gain_norm_bits: u64,
) -> bool {
    if replay_skipped(old, o, channel) {
        new == old
    } else {
        replayed(old, new, o, param_path, format, value, gain_norm_bits)
    }
}

/// A buffered value replayed into slots `ids` in turn ([`replay_step`]).
pub open spec fn replayed_all(
    old: BridgeCore,
    new: BridgeCore,
    ids: Seq<usize>,
    channel: usize,
    param_path: Seq<char>,
    format: MsFormat,
    value: JsonValue,
    gain_norm_bits: u64,
) -> bool
    decreases ids.len(),
{
    if ids.len() == 0 {
        new == old
    } else {
        exists|mid: BridgeCore| #[trigger] replay_step(mid, new, ids.last(), channel, param_path, format, value,
            gain_norm_bits) && replayed_all(old, mid, ids.drop_last(), channel, param_path, format, value, gain_norm_bits)
    }
}

/// Slots `ids` made sure of in turn ([`track_ensured`]).
pub open spec fn tracks_ensured(old: BridgeCore, new: BridgeCore, ids: Seq<usize>) -> bool
    decreases ids.len(),
{
    if ids.len() == 0 {
        new == old
    } else {
        exists|mid: BridgeCore, ok: bool| #[trigger] track_ensured(mid, new, ids.last(), ok)
            && tracks_ensured(old, mid, ids.drop_last())
    }
}

impl BridgeCore {
    /// Replays one value buffered during initialization into every slot in `object_ids`,
    /// in order ([`replayed_all`]).
    pub fn replay_update(
        &mut self,
        object_ids: &[usize],
        channel: usize,
        param_path: &str,
        format: MsFormat,
        value: &JsonValue,
        gain_norm_bits: u64,
        rng: &mut StdRng,
    )
        requires
            old(self).wf(),
        ensures
            final(self).wf(),
            replayed_all(*old(self), *final(self), object_ids@, channel, param_path@, format, *value, gain_norm_bits),
    {
        let mut i: usize = 0;
        assert(object_ids@.take(0) =~= Seq::<usize>::empty());
        while i < object_ids.len()
            invariant
                i <= object_ids@.len(),
                self.wf(),
                replayed_all(*old(self), *self, object_ids@.take(i as int), channel, param_path@, format, *value,
                    gain_norm_bits),
            decreases object_ids.len() - i,
        {
            let ghost mid = *self;
            self.replay_update_to_slot(object_ids[i], channel, param_path, format, value, gain_norm_bits, rng);
            proof {
                let ids = object_ids@.take(i + 1);
                assert(ids.drop_last() =~= object_ids@.take(i as int));
                assert(replay_step(mid, *self, ids.last(), channel, param_path@, format, *value, gain_norm_bits));
            }
            i = i + 1;
        }
        assert(object_ids@.take(i as int) =~= object_ids@);
    }

    /// Makes sure every slot in `object_ids` has a track, in order ([`tracks_ensured`]).
    pub fn ensure_tracks(&mut self, object_ids: &[usize], rng: &mut StdRng)
        requires
            old(self).wf(),
        ensures
            final(self).wf(),
            tracks_ensured(*old(self), *final(self), object_ids@),
    {
        let mut i: usize = 0;
        assert(object_ids@.take(0) =~= Seq::<usize>::empty());
        while i < object_ids.len()
            invariant
                i <= object_ids@.len(),
                self.wf(),
                tracks_ensured(*old(self), *self, object_ids@.take(i as int)),
            decreases object_ids.len() - i,
        {
            let ghost mid = *self;
            let ok = self.ensure_track(object_ids[i], rng);
            proof {
                let ids = object_ids@.take(i + 1);
                assert(ids.drop_last() =~= object_ids@.take(i as int));
                assert(track_ensured(mid, *self, ids.last(), ok));
            }
            i = i + 1;
        }
        assert(object_ids@.take(i as int) =~= object_ids@);
    }
}

} // verus!
