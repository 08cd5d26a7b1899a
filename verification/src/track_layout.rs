//! Console 1 track-layout builder: input/bus banking, stereo-linked pairs, Main placement.
//!
//! The layout is 10-wide input banks starting at object_id 0, then 10-wide bus banks with
//! Main placed once on the last bus bank's 10th fader.

use crate::config::TrackOrderEntry;
use std::collections::{HashMap, HashSet};
use vstd::prelude::*;

verus! {

broadcast use vstd::std_specs::hash::group_hash_axioms;

pub const FADER_BANK_SIZE: usize = 10;
pub const INPUTS_PER_BANK: usize = 10;

/// The kind of a Console 1 fader layout slot.
#[derive(Debug, Clone, Copy, PartialEq, Eq, Structural)]
pub enum LayoutSlotKind {
    /// A padding slot with no real channel behind it.
    Empty,
    Input,
    Bus,
    Main,
}

/// One slot in the Console 1 fader layout. `ms_channels`/`ms_primary` are empty/`None`
/// for `Empty` padding slots.
#[derive(Debug, Clone)]
pub struct LayoutSlot {
    pub object_id: usize,
    pub kind: LayoutSlotKind,
    pub ms_channels: Vec<usize>,
    pub ms_primary: Option<usize>,
    pub pan_locked: bool,
}

/// Inputs the layout builder needs.
pub struct TrackLayoutParams<'a> {
    /// Configured input order: 0-based MS channel indices.
    pub input_track_order: &'a [TrackOrderEntry],
    /// Configured bus order: 1-based bus numbers.
    pub bus_track_order: &'a [TrackOrderEntry],
    pub input_channel_count: usize,
    /// MS channel index where bus 1 starts; bus N is MS channel `bus_channel_start + N - 1`.
    pub bus_channel_start: usize,
    pub bus_channel_count: usize,
    /// 1 or 2 MS channel indices for Main.
    pub main_stereo_channels: &'a [usize],
}

/// A track of the ordered input or bus list, before banking.
pub struct TrackSpec {
    pub channels: Seq<usize>,
    pub primary: usize,
    pub pan_locked: bool,
}

/// The running state while the configured order is read: which channels (inputs) or bus
/// numbers (buses) are taken, and the tracks found so far.
pub type OrderState = (Set<usize>, Seq<TrackSpec>);

pub open spec fn mono_track(ch: usize) -> TrackSpec {
    TrackSpec { channels: seq![ch], primary: ch, pan_locked: false }
}

pub open spec fn stereo_track(l: usize, r: usize) -> TrackSpec {
    TrackSpec { channels: seq![l, r], primary: l, pan_locked: true }
}

/// Taking input channel `ch` (if in range and still free) as a mono track.
pub open spec fn input_mono_step(st: OrderState, ch: int, count: int) -> OrderState {
    if ch < 0 || ch >= count || st.0.contains(ch as usize) {
        st
    } else {
        (st.0.insert(ch as usize), st.1.push(mono_track(ch as usize)))
    }
}

/// Taking input channels `l`, `r` (if distinct, in range and both free) as a stereo pair.
pub open spec fn input_pair_step(st: OrderState, l: int, r: int, count: int) -> OrderState {
    if l < 0 || r < 0 || l == r || l >= count || r >= count || st.0.contains(l as usize)
        || st.0.contains(r as usize) {
        st
    } else {
        (st.0.insert(l as usize).insert(r as usize), st.1.push(stereo_track(l as usize, r as usize)))
    }
}

pub open spec fn input_step(st: OrderState, e: TrackOrderEntry, count: int) -> OrderState {
    match e {
        TrackOrderEntry::Single(ch) => input_mono_step(st, ch as int, count),
        TrackOrderEntry::Pair(l, r) => input_pair_step(st, l as int, r as int, count),
    }
}

/// The state after reading the configured input order, entry by entry.
pub open spec fn inputs_after(entries: Seq<TrackOrderEntry>, count: int) -> OrderState
    decreases entries.len(),
{
    if entries.len() == 0 {
        (Set::empty(), Seq::empty())
    } else {
        input_step(inputs_after(entries.drop_last(), count), entries.last(), count)
    }
}

/// The state after also appending every still-free channel below `upto`, ascending.
pub open spec fn inputs_filled(st: OrderState, upto: int, count: int) -> OrderState
    decreases upto,
{
    if upto <= 0 {
        st
    } else {
        input_mono_step(inputs_filled(st, upto - 1, count), upto - 1, count)
    }
}

/// The ordered input tracks: the configured order, then every unlisted channel ascending.
pub open spec fn ordered_inputs(entries: Seq<TrackOrderEntry>, count: int) -> Seq<TrackSpec> {
    inputs_filled(inputs_after(entries, count), count, count).1
}

/// Taking bus number `n` (1-based; if in range and still free) as a mono bus track.
pub open spec fn bus_mono_step(st: OrderState, n: int, start: int, count: int) -> OrderState {
    if n < 1 || n > count || st.0.contains(n as usize) {
        st
    } else {
        (st.0.insert(n as usize), st.1.push(mono_track((start + n - 1) as usize)))
    }
}

/// Taking bus numbers `l`, `r` (if distinct, in range and both free) as a stereo bus.
pub open spec fn bus_pair_step(st: OrderState, l: int, r: int, start: int, count: int) -> OrderState {
    if l < 1 || r < 1 || l == r || l > count || r > count || st.0.contains(l as usize)
        || st.0.contains(r as usize) {
        st
    } else {
        (
            st.0.insert(l as usize).insert(r as usize),
            st.1.push(stereo_track((start + l - 1) as usize, (start + r - 1) as usize)),
        )
    }
}

pub open spec fn bus_step(st: OrderState, e: TrackOrderEntry, start: int, count: int) -> OrderState {
    match e {
        TrackOrderEntry::Single(n) => bus_mono_step(st, n as int, start, count),
        TrackOrderEntry::Pair(l, r) => bus_pair_step(st, l as int, r as int, start, count),
    }
}

pub open spec fn buses_after(entries: Seq<TrackOrderEntry>, start: int, count: int) -> OrderState
    decreases entries.len(),
{
    if entries.len() == 0 {
        (Set::empty(), Seq::empty())
    } else {
        bus_step(buses_after(entries.drop_last(), start, count), entries.last(), start, count)
    }
}

/// The state after also appending every still-free bus number `1..=upto`, ascending.
pub open spec fn buses_filled(st: OrderState, upto: int, start: int, count: int) -> OrderState
    decreases upto,
{
    if upto <= 0 {
        st
    } else {
        bus_mono_step(buses_filled(st, upto - 1, start, count), upto, start, count)
    }
}

/// The ordered bus tracks: the configured order, then every unlisted bus ascending.
pub open spec fn ordered_buses(entries: Seq<TrackOrderEntry>, start: int, count: int) -> Seq<TrackSpec> {
    buses_filled(buses_after(entries, start, count), count, start, count).1
}

/// Number of 10-wide input banks for `n` input tracks.
pub open spec fn input_bank_count(n: int) -> int {
    (n + 9) / 10
}

/// Number of 10-wide bus banks for `m` bus tracks plus Main (at least one).
pub open spec fn bus_bank_count(m: int) -> int {
    if (m + 10) / 10 > 1 { (m + 10) / 10 } else { 1 }
}

/// `s` is the slot at `object_id` with the given kind and channels.
pub open spec fn slot_is(
    s: LayoutSlot,
    object_id: int,
    kind: LayoutSlotKind,
    channels: Seq<usize>,
    primary: Option<usize>,
    pan_locked: bool,
) -> bool {
    &&& s.object_id == object_id
    &&& s.kind == kind
    &&& s.ms_channels@ == channels
    &&& s.ms_primary == primary
    &&& s.pan_locked == pan_locked
}

pub open spec fn slot_is_track(s: LayoutSlot, object_id: int, kind: LayoutSlotKind, t: TrackSpec) -> bool {
    slot_is(s, object_id, kind, t.channels, Some(t.primary), t.pan_locked)
}

pub open spec fn slot_is_empty(s: LayoutSlot, object_id: int) -> bool {
    slot_is(s, object_id, LayoutSlotKind::Empty, Seq::empty(), None, false)
}

/// The layout: input banks (real input tracks, then padding), followed by bus banks (real
/// bus tracks, then padding), whose very last slot is Main.
pub open spec fn is_track_layout(
    slots: Seq<LayoutSlot>,
    inputs: Seq<TrackSpec>,
    buses: Seq<TrackSpec>,
    main: Seq<usize>,
) -> bool {
    let ni = 10 * input_bank_count(inputs.len() as int);
    let nb = 10 * bus_bank_count(buses.len() as int);
    &&& slots.len() == ni + nb
    &&& forall|i: int| 0 <= i < ni ==> {
        if i < inputs.len() {
            slot_is_track(#[trigger] slots[i], i, LayoutSlotKind::Input, inputs[i])
        } else {
            slot_is_empty(slots[i], i)
        }
    }
    &&& forall|j: int| 0 <= j < nb ==> {
        if j == nb - 1 {
            slot_is(#[trigger] slots[ni + j], ni + j, LayoutSlotKind::Main, main,
                if main.len() > 0 { Some(main[0]) } else { None }, false)
        } else if j < buses.len() {
            slot_is_track(slots[ni + j], ni + j, LayoutSlotKind::Bus, buses[j])
        } else {
            slot_is_empty(slots[ni + j], ni + j)
        }
    }
}

struct OrderedTrack {
    ms_channels: Vec<usize>,
    ms_primary: usize,
    pan_locked: bool,
}

spec fn track_spec(t: OrderedTrack) -> TrackSpec {
    TrackSpec { channels: t.ms_channels@, primary: t.ms_primary, pan_locked: t.pan_locked }
}

spec fn tracks_spec(v: Seq<OrderedTrack>) -> Seq<TrackSpec> {
    v.map_values(|t: OrderedTrack| track_spec(t))
}

fn in_range(v: i64, count: usize) -> (res: bool)
    ensures
        res == (0 <= v < count),
{
    v >= 0 && (v as u64) < (count as u64)
}

fn push_mono_input(ch: i64, input_channel_count: usize, used: &mut HashSet<usize>, out: &mut Vec<OrderedTrack>)
    ensures
        (final(used)@, tracks_spec(final(out)@)) == input_mono_step(
            (old(used)@, tracks_spec(old(out)@)),
            ch as int,
            input_channel_count as int,
        ),
        order_state_bounded(old(used)@, old(out)@.len() as int, 0, input_channel_count)
            ==> order_state_bounded(final(used)@, final(out)@.len() as int, 0, input_channel_count),
{
    if !in_range(ch, input_channel_count) {
        return;
    }
    let ch = ch as usize;
    if used.contains(&ch) {
        return;
    }
    used.insert(ch);
    let mut chans: Vec<usize> = Vec::new();
    chans.push(ch);
    out.push(OrderedTrack { ms_channels: chans, ms_primary: ch, pan_locked: false });
    proof {
        assert(tracks_spec(final(out)@) =~= tracks_spec(old(out)@).push(mono_track(ch)));
    }
}

fn push_stereo_input(
    left: i64,
    right: i64,
    input_channel_count: usize,
    used: &mut HashSet<usize>,
    out: &mut Vec<OrderedTrack>,
)
    ensures
        (final(used)@, tracks_spec(final(out)@)) == input_pair_step(
            (old(used)@, tracks_spec(old(out)@)),
            left as int,
            right as int,
            input_channel_count as int,
        ),
        order_state_bounded(old(used)@, old(out)@.len() as int, 0, input_channel_count)
            ==> order_state_bounded(final(used)@, final(out)@.len() as int, 0, input_channel_count),
{
    if left < 0 || right < 0 || left == right {
        return;
    }
    if !in_range(left, input_channel_count) || !in_range(right, input_channel_count) {
        return;
    }
    let (left, right) = (left as usize, right as usize);
    if used.contains(&left) || used.contains(&right) {
        return;
    }
    used.insert(left);
    used.insert(right);
    out.push(OrderedTrack { ms_channels: vec![left, right], ms_primary: left, pan_locked: true });
    proof {
        assert(tracks_spec(final(out)@) =~= tracks_spec(old(out)@).push(stereo_track(left, right)));
    }
}

fn push_bus_mono(
    bus_num: i64,
    bus_channel_start: usize,
    bus_channel_count: usize,
    used: &mut HashSet<usize>,
    out: &mut Vec<OrderedTrack>,
)
    requires
        bus_channel_start + bus_channel_count <= usize::MAX,
        bus_channel_count < usize::MAX,
    ensures
        (final(used)@, tracks_spec(final(out)@)) == bus_mono_step(
            (old(used)@, tracks_spec(old(out)@)),
            bus_num as int,
            bus_channel_start as int,
            bus_channel_count as int,
        ),
        order_state_bounded(old(used)@, old(out)@.len() as int, 1, (bus_channel_count + 1) as usize)
            ==> order_state_bounded(final(used)@, final(out)@.len() as int, 1, (bus_channel_count + 1) as usize),
{
    if bus_num < 1 || !in_range(bus_num - 1, bus_channel_count) {
        return;
    }
    let bus_num = bus_num as usize;
    if used.contains(&bus_num) {
        return;
    }
    used.insert(bus_num);
    let ms_ch = bus_channel_start + (bus_num - 1);
    let mut chans: Vec<usize> = Vec::new();
    chans.push(ms_ch);
    out.push(OrderedTrack { ms_channels: chans, ms_primary: ms_ch, pan_locked: false });
    proof {
        assert(tracks_spec(final(out)@) =~= tracks_spec(old(out)@).push(mono_track(ms_ch)));
    }
}

fn push_bus_stereo(
    left_bus: i64,
    right_bus: i64,
    bus_channel_start: usize,
    bus_channel_count: usize,
    used: &mut HashSet<usize>,
    out: &mut Vec<OrderedTrack>,
)
    requires
        bus_channel_start + bus_channel_count <= usize::MAX,
        bus_channel_count < usize::MAX,
    ensures
        (final(used)@, tracks_spec(final(out)@)) == bus_pair_step(
            (old(used)@, tracks_spec(old(out)@)),
            left_bus as int,
            right_bus as int,
            bus_channel_start as int,
            bus_channel_count as int,
        ),
        order_state_bounded(old(used)@, old(out)@.len() as int, 1, (bus_channel_count + 1) as usize)
            ==> order_state_bounded(final(used)@, final(out)@.len() as int, 1, (bus_channel_count + 1) as usize),
{
    if left_bus < 1 || right_bus < 1 || left_bus == right_bus {
        return;
    }
    if !in_range(left_bus - 1, bus_channel_count) || !in_range(right_bus - 1, bus_channel_count) {
        return;
    }
    let (left_bus, right_bus) = (left_bus as usize, right_bus as usize);
    if used.contains(&left_bus) || used.contains(&right_bus) {
        return;
    }
    used.insert(left_bus);
    used.insert(right_bus);
    let left_ch = bus_channel_start + (left_bus - 1);
    let right_ch = bus_channel_start + (right_bus - 1);
    out.push(OrderedTrack { ms_channels: vec![left_ch, right_ch], ms_primary: left_ch, pan_locked: true });
    proof {
        assert(tracks_spec(final(out)@) =~= tracks_spec(old(out)@).push(stereo_track(left_ch, right_ch)));
    }
}

fn copy_channels(v: &[usize]) -> (res: Vec<usize>)
    ensures
        res@ == v@,
{
    let mut out: Vec<usize> = Vec::new();
    let mut i: usize = 0;
    while i < v.len()
        invariant
            i <= v@.len(),
            out@ == v@.subrange(0, i as int),
        decreases v.len() - i,
    {
        out.push(v[i]);
        i = i + 1;
    }
    out
}

fn track_slot(object_id: usize, kind: LayoutSlotKind, t: &OrderedTrack) -> (res: LayoutSlot)
    ensures
        slot_is_track(res, object_id as int, kind, track_spec(*t)),
{
    LayoutSlot {
        object_id,
        kind,
        ms_channels: copy_channels(t.ms_channels.as_slice()),
        ms_primary: Some(t.ms_primary),
        pan_locked: t.pan_locked,
    }
}

fn empty_slot(object_id: usize) -> (res: LayoutSlot)
    ensures
        slot_is_empty(res, object_id as int),
{
    LayoutSlot {
        object_id,
        kind: LayoutSlotKind::Empty,
        ms_channels: Vec::new(),
        ms_primary: None,
        pan_locked: false,
    }
}

/// The layout slots for the configured orders and channel counts.
pub open spec fn expected_layout(params: TrackLayoutParams, slots: Seq<LayoutSlot>) -> bool {
    is_track_layout(
        slots,
        ordered_inputs(params.input_track_order@, params.input_channel_count as int),
        ordered_buses(params.bus_track_order@, params.bus_channel_start as int, params.bus_channel_count as int),
        params.main_stereo_channels@,
    )
}

/// The taken set stays within `lo..hi` and holds at least one element per track.
spec fn order_state_bounded(used: Set<usize>, n: int, lo: usize, hi: usize) -> bool {
    &&& used.finite()
    &&& n <= used.len()
    &&& forall|c: usize| used.contains(c) ==> lo <= c < hi
}

proof fn lemma_bounded_len(used: Set<usize>, n: int, lo: usize, hi: usize)
    requires
        order_state_bounded(used, n, lo, hi),
        lo <= hi,
    ensures
        n <= hi - lo,
{
    <usize as vstd::set_lib::FiniteRange>::range_properties(lo, hi);
    assert(used.subset_of(Set::<usize>::range(lo, hi)));
    vstd::set_lib::lemma_len_subset(used, Set::<usize>::range(lo, hi));
}

/// Build the full Console 1 track layout: input banks, then bus banks with Main placed once
/// on the last bus bank's 10th fader.
pub fn build_track_layout(params: &TrackLayoutParams) -> (slots: Vec<LayoutSlot>)
    requires
        params.input_channel_count <= usize::MAX / 4,
        params.bus_channel_count <= usize::MAX / 4,
        params.bus_channel_start + params.bus_channel_count <= usize::MAX,
    ensures
        expected_layout(*params, slots@),
{
    let count = params.input_channel_count;
    let ghost in_entries = params.input_track_order@;

    // --- Inputs ---
    let mut used_inputs: HashSet<usize> = HashSet::new();
    let mut ordered_input_tracks: Vec<OrderedTrack> = Vec::new();
    let mut k: usize = 0;
    while k < params.input_track_order.len()
        invariant
            k <= in_entries.len(),
            in_entries == params.input_track_order@,
            count == params.input_channel_count,
            (used_inputs@, tracks_spec(ordered_input_tracks@)) == inputs_after(in_entries.subrange(0, k as int), count as int),
            order_state_bounded(used_inputs@, ordered_input_tracks@.len() as int, 0, count),
        decreases in_entries.len() - k,
    {
        assert(in_entries.subrange(0, k + 1).drop_last() =~= in_entries.subrange(0, k as int));
        match params.input_track_order[k] {
            TrackOrderEntry::Pair(l, r) => push_stereo_input(l, r, count, &mut used_inputs, &mut ordered_input_tracks),
            TrackOrderEntry::Single(ch) => push_mono_input(ch, count, &mut used_inputs, &mut ordered_input_tracks),
        }
        k = k + 1;
    }
    assert(in_entries.subrange(0, in_entries.len() as int) =~= in_entries);
    let ghost after_order = inputs_after(in_entries, count as int);
    let mut ch: usize = 0;
    while ch < count
        invariant
            ch <= count,
            count == params.input_channel_count,
            count <= usize::MAX / 4,
            (used_inputs@, tracks_spec(ordered_input_tracks@)) == inputs_filled(after_order, ch as int, count as int),
            order_state_bounded(used_inputs@, ordered_input_tracks@.len() as int, 0, count),
        decreases count - ch,
    {
        if !used_inputs.contains(&ch) {
            push_mono_input(ch as i64, count, &mut used_inputs, &mut ordered_input_tracks);
        }
        ch = ch + 1;
    }
    proof {
        lemma_bounded_len(used_inputs@, ordered_input_tracks@.len() as int, 0, count);
    }
    let ghost inputs = tracks_spec(ordered_input_tracks@);
    assert(inputs == ordered_inputs(in_entries, count as int));

    let n = ordered_input_tracks.len();
    let input_banks = if n % INPUTS_PER_BANK == 0 { n / INPUTS_PER_BANK } else { n / INPUTS_PER_BANK + 1 };
    let ni = input_banks * INPUTS_PER_BANK;
    let mut slots: Vec<LayoutSlot> = Vec::new();
    let mut idx: usize = 0;
    while idx < ni
        invariant
            idx <= ni,
            n == ordered_input_tracks@.len(),
            n <= count,
            count <= usize::MAX / 4,
            ni == 10 * input_bank_count(n as int),
            inputs == tracks_spec(ordered_input_tracks@),
            slots@.len() == idx,
            forall|i: int| 0 <= i < idx ==> {
                if i < n {
                    slot_is_track(#[trigger] slots@[i], i, LayoutSlotKind::Input, inputs[i])
                } else {
                    slot_is_empty(slots@[i], i)
                }
            },
        decreases ni - idx,
    {
        if idx < n {
            slots.push(track_slot(idx, LayoutSlotKind::Input, &ordered_input_tracks[idx]));
        } else {
            slots.push(empty_slot(idx));
        }
        idx = idx + 1;
    }

    // --- Buses (+ Main) ---
    let start = params.bus_channel_start;
    let bcount = params.bus_channel_count;
    let ghost bus_entries = params.bus_track_order@;
    let mut used_bus_nums: HashSet<usize> = HashSet::new();
    let mut ordered_bus_tracks: Vec<OrderedTrack> = Vec::new();
    let mut k: usize = 0;
    while k < params.bus_track_order.len()
        invariant
            k <= bus_entries.len(),
            bus_entries == params.bus_track_order@,
            start == params.bus_channel_start,
            bcount == params.bus_channel_count,
            start + bcount <= usize::MAX,
            bcount <= usize::MAX / 4,
            (used_bus_nums@, tracks_spec(ordered_bus_tracks@)) == buses_after(bus_entries.subrange(0, k as int), start as int, bcount as int),
            order_state_bounded(used_bus_nums@, ordered_bus_tracks@.len() as int, 1, (bcount + 1) as usize),
        decreases bus_entries.len() - k,
    {
        assert(bus_entries.subrange(0, k + 1).drop_last() =~= bus_entries.subrange(0, k as int));
        match params.bus_track_order[k] {
            TrackOrderEntry::Pair(l, r) => push_bus_stereo(l, r, start, bcount, &mut used_bus_nums, &mut ordered_bus_tracks),
            TrackOrderEntry::Single(b) => push_bus_mono(b, start, bcount, &mut used_bus_nums, &mut ordered_bus_tracks),
        }
        k = k + 1;
    }
    assert(bus_entries.subrange(0, bus_entries.len() as int) =~= bus_entries);
    let ghost after_bus_order = buses_after(bus_entries, start as int, bcount as int);
    let mut bus_num: usize = 1;
    while bus_num <= bcount
        invariant
            1 <= bus_num <= bcount + 1,
            start + bcount <= usize::MAX,
            bcount <= usize::MAX / 4,
            (used_bus_nums@, tracks_spec(ordered_bus_tracks@)) == buses_filled(after_bus_order, bus_num - 1, start as int, bcount as int),
            order_state_bounded(used_bus_nums@, ordered_bus_tracks@.len() as int, 1, (bcount + 1) as usize),
        decreases bcount + 1 - bus_num,
    {
        if !used_bus_nums.contains(&bus_num) {
            push_bus_mono(bus_num as i64, start, bcount, &mut used_bus_nums, &mut ordered_bus_tracks);
        }
        bus_num = bus_num + 1;
    }
    proof {
        lemma_bounded_len(used_bus_nums@, ordered_bus_tracks@.len() as int, 1, (bcount + 1) as usize);
    }
    let ghost buses = tracks_spec(ordered_bus_tracks@);
    assert(buses == ordered_buses(bus_entries, start as int, bcount as int));

    let m = ordered_bus_tracks.len();
    let q = (m + 1) / FADER_BANK_SIZE + if (m + 1) % FADER_BANK_SIZE == 0 { 0 } else { 1 };
    let bus_banks = if q > 1 { q } else { 1 };
    let nb = bus_banks * FADER_BANK_SIZE;
    assert(bus_banks == bus_bank_count(m as int));
    let main = params.main_stereo_channels;
    let mut j: usize = 0;
    while j < nb
        invariant
            j <= nb,
            m == ordered_bus_tracks@.len(),
            m <= bcount,
            bcount <= usize::MAX / 4,
            n <= usize::MAX / 4,
            nb == 10 * bus_bank_count(m as int),
            ni == 10 * input_bank_count(n as int),
            buses == tracks_spec(ordered_bus_tracks@),
            inputs == tracks_spec(ordered_input_tracks@),
            n == inputs.len(),
            main == params.main_stereo_channels,
            slots@.len() == ni + j,
            forall|i: int| 0 <= i < ni ==> {
                if i < n {
                    slot_is_track(#[trigger] slots@[i], i, LayoutSlotKind::Input, inputs[i])
                } else {
                    slot_is_empty(slots@[i], i)
                }
            },
            forall|jj: int| 0 <= jj < j ==> {
                if jj == nb - 1 {
                    slot_is(#[trigger] slots@[ni + jj], ni + jj, LayoutSlotKind::Main, main@,
                        if main@.len() > 0 { Some(main@[0]) } else { None }, false)
                } else if jj < m {
                    slot_is_track(slots@[ni + jj], ni + jj, LayoutSlotKind::Bus, buses[jj])
                } else {
                    slot_is_empty(slots@[ni + jj], ni + jj)
                }
            },
        decreases nb - j,
    {
        let object_id = ni + j;
        if j == nb - 1 {
            let primary = if main.len() > 0 { Some(main[0]) } else { None };
            slots.push(LayoutSlot {
                object_id,
                kind: LayoutSlotKind::Main,
                ms_channels: copy_channels(main),
                ms_primary: primary,
                pan_locked: false,
            });
        } else if j < m {
            slots.push(track_slot(object_id, LayoutSlotKind::Bus, &ordered_bus_tracks[j]));
        } else {
            slots.push(empty_slot(object_id));
        }
        j = j + 1;
    }
    slots
}

/// `id` once for every occurrence of `ch` in `chs`.
pub open spec fn refs_in_channels(chs: Seq<usize>, ch: usize, id: usize) -> Seq<usize>
    decreases chs.len(),
{
    if chs.len() == 0 {
        Seq::empty()
    } else {
        refs_in_channels(chs.drop_last(), ch, id) + if chs.last() == ch { seq![id] } else { Seq::empty() }
    }
}

/// The object_ids of the slots that reference MS channel `ch`, in layout order (a slot
/// listing the channel twice appears twice).
pub open spec fn slots_referencing(slots: Seq<LayoutSlot>, ch: usize) -> Seq<usize>
    decreases slots.len(),
{
    if slots.len() == 0 {
        Seq::empty()
    } else {
        slots_referencing(slots.drop_last(), ch)
            + refs_in_channels(slots.last().ms_channels@, ch, slots.last().object_id)
    }
}

/// The reverse map of a layout: each referenced MS channel to the slots referencing it.
pub open spec fn is_channel_index(map: Map<usize, Vec<usize>>, slots: Seq<LayoutSlot>) -> bool {
    forall|ch: usize| {
        &&& #[trigger] map.contains_key(ch) <==> slots_referencing(slots, ch).len() > 0
        &&& map.contains_key(ch) ==> map[ch]@ == slots_referencing(slots, ch)
    }
}

/// Map each MS channel index to the layout slot object_ids that reference it.
pub fn object_ids_by_ms_channel(slots: &[LayoutSlot]) -> (map: HashMap<usize, Vec<usize>>)
    ensures
        is_channel_index(map@, slots@),
{
    let mut map: HashMap<usize, Vec<usize>> = HashMap::new();
    let mut i: usize = 0;
    while i < slots.len()
        invariant
            i <= slots@.len(),
            is_channel_index(map@, slots@.subrange(0, i as int)),
        decreases slots.len() - i,
    {
        let slot = &slots[i];
        let ghost prefix = slots@.subrange(0, i as int);
        assert(slots@.subrange(0, i + 1).drop_last() =~= prefix);
        let mut c: usize = 0;
        while c < slot.ms_channels.len()
            invariant
                i < slots@.len(),
                *slot == slots@[i as int],
                c <= slot.ms_channels@.len(),
                prefix == slots@.subrange(0, i as int),
                forall|ch: usize| {
                    &&& #[trigger] map@.contains_key(ch) <==> (slots_referencing(prefix, ch)
                        + refs_in_channels(slot.ms_channels@.subrange(0, c as int), ch, slot.object_id)).len() > 0
                    &&& map@.contains_key(ch) ==> map@[ch]@ == slots_referencing(prefix, ch)
                        + refs_in_channels(slot.ms_channels@.subrange(0, c as int), ch, slot.object_id)
                },
            decreases slot.ms_channels.len() - c,
        {
            let ch = slot.ms_channels[c];
            let mut ids: Vec<usize> = match map.get(&ch) {
                Some(v) => v.clone(),
                None => Vec::new(),
            };
            ids.push(slot.object_id);
            map.insert(ch, ids);
            proof {
                let chs = slot.ms_channels@;
                assert(chs.subrange(0, c + 1).drop_last() =~= chs.subrange(0, c as int));
                assert forall|x: usize| x != ch implies refs_in_channels(chs.subrange(0, c + 1), x, slot.object_id)
                    == refs_in_channels(chs.subrange(0, c as int), x, slot.object_id) by {
                    assert(refs_in_channels(chs.subrange(0, c + 1), x, slot.object_id)
                        =~= refs_in_channels(chs.subrange(0, c as int), x, slot.object_id));
                }
                assert((slots_referencing(prefix, ch) + refs_in_channels(chs.subrange(0, c + 1), ch, slot.object_id))
                    =~= (slots_referencing(prefix, ch) + refs_in_channels(chs.subrange(0, c as int), ch, slot.object_id)).push(slot.object_id));
            }
            c = c + 1;
        }
        proof {
            assert(slot.ms_channels@.subrange(0, slot.ms_channels@.len() as int) =~= slot.ms_channels@);
        }
        i = i + 1;
    }
    assert(slots@.subrange(0, slots@.len() as int) =~= slots@);
    map
}

} // verus!
