//! Console 1 ↔ Mixing Station send-slot mapping.
//!
//! Console 1 has 6 physical send slots; each maps to a configured MS bus number, falling
//! back to the identity mapping (slot i → MS send index i) when the configured bus number
//! is missing or out of range.

use std::collections::HashMap;
use vstd::prelude::*;

verus! {

broadcast use vstd::std_specs::hash::group_hash_axioms;

pub const NUMBER_OF_SENDS: usize = 6;

/// Console 1 send-slot → Mixing Station bus-send-index mapping, plus its reverse lookup.
#[derive(Debug, Clone)]
pub struct SendMapping {
    /// `c1_to_ms_send_index[i]` is the MS send index Console 1 send slot `i` maps to.
    pub c1_to_ms_send_index: [usize; 6],
    /// MS send index → the first Console 1 slot mapped to it.
    pub ms_send_index_to_c1_slot: HashMap<usize, usize>,
}

/// The MS send index of Console 1 slot `i`: the configured bus number minus one when that
/// lies in `0..bus_channel_count`, else `i`.
pub open spec fn mapped_send_index(config: Seq<i64>, i: int, bus_channel_count: int) -> int {
    if i < config.len() && 0 <= config[i] - 1 < bus_channel_count {
        config[i] - 1
    } else {
        i
    }
}

/// The reverse lookup: each MS send index that some slot maps to, to the lowest such slot.
pub open spec fn is_first_slot_map(map: Map<usize, usize>, config: Seq<i64>, bus_channel_count: int) -> bool {
    forall|idx: usize| {
        &&& #[trigger] map.contains_key(idx) <==> exists|i: int| 0 <= i < 6 && mapped_send_index(config, i, bus_channel_count) == idx
        &&& map.contains_key(idx) ==> {
            let s = map[idx] as int;
            &&& 0 <= s < 6
            &&& mapped_send_index(config, s, bus_channel_count) == idx
            &&& forall|k: int| 0 <= k < s ==> mapped_send_index(config, k, bus_channel_count) != idx
        }
    }
}

fn mapped_index(config: &[i64], i: usize, bus_channel_count: usize) -> (res: usize)
    requires
        i < 6,
    ensures
        res as int == mapped_send_index(config@, i as int, bus_channel_count as int),
{
    if i < config.len() {
        let bus_num = config[i];
        if bus_num >= 1 && ((bus_num - 1) as u64) < (bus_channel_count as u64) {
            return (bus_num - 1) as usize;
        }
    }
    i
}

/// Build the send mapping from the configured 1-based MS bus numbers (one per Console 1
/// slot) and the current MS bus channel count.
pub fn build_send_mapping(c1_send_to_ms_bus_number: &[i64], bus_channel_count: usize) -> (res: SendMapping)
    ensures
        forall|i: int| 0 <= i < 6 ==> res.c1_to_ms_send_index@[i] as int
            == mapped_send_index(c1_send_to_ms_bus_number@, i, bus_channel_count as int),
        is_first_slot_map(res.ms_send_index_to_c1_slot@, c1_send_to_ms_bus_number@, bus_channel_count as int),
{
    let cfg = c1_send_to_ms_bus_number;
    let c1_to_ms_send_index: [usize; 6] = [
        mapped_index(cfg, 0, bus_channel_count),
        mapped_index(cfg, 1, bus_channel_count),
        mapped_index(cfg, 2, bus_channel_count),
        mapped_index(cfg, 3, bus_channel_count),
        mapped_index(cfg, 4, bus_channel_count),
        mapped_index(cfg, 5, bus_channel_count),
    ];
    let ghost count = bus_channel_count as int;
    let mut ms_send_index_to_c1_slot: HashMap<usize, usize> = HashMap::new();
    let mut i: usize = 0;
    while i < NUMBER_OF_SENDS
        invariant
            i <= 6,
            forall|k: int| 0 <= k < 6 ==> c1_to_ms_send_index@[k] as int == mapped_send_index(cfg@, k, count),
            forall|idx: usize| {
                &&& #[trigger] ms_send_index_to_c1_slot@.contains_key(idx) <==> exists|k: int| 0 <= k < i && mapped_send_index(cfg@, k, count) == idx
                &&& ms_send_index_to_c1_slot@.contains_key(idx) ==> {
                    let s = ms_send_index_to_c1_slot@[idx] as int;
                    &&& 0 <= s < i
                    &&& mapped_send_index(cfg@, s, count) == idx
                    &&& forall|k: int| 0 <= k < s ==> mapped_send_index(cfg@, k, count) != idx
                }
            },
        decreases 6 - i,
    {
        let idx = c1_to_ms_send_index[i];
        if !ms_send_index_to_c1_slot.contains_key(&idx) {
            ms_send_index_to_c1_slot.insert(idx, i);
        }
        proof {
            assert forall|x: usize| (exists|k: int| 0 <= k < i + 1 && mapped_send_index(cfg@, k, count) == x)
                implies #[trigger] ms_send_index_to_c1_slot@.contains_key(x) by {
                {
                    let k = choose|k: int| 0 <= k < i + 1 && mapped_send_index(cfg@, k, count) == x;
                    if k == i {
                        assert(idx == x);
                    } else {
                        assert(exists|k2: int| 0 <= k2 < i && mapped_send_index(cfg@, k2, count) == x);
                    }
                }
            }
        }
        i = i + 1;
    }
    SendMapping { c1_to_ms_send_index, ms_send_index_to_c1_slot }
}

} // verus!
