//! Console 1 `trackId` generation and objectId ↔ trackId bookkeeping.
//!
//! A trackId is 8 uppercase hex characters: the big-endian rendering of a 32-bit value.
//! The registry keeps one entry per layout slot for the lifetime of the process.

use std::collections::HashSet;
use rand::rngs::StdRng;
use vstd::prelude::*;

verus! {

broadcast use vstd::std_specs::hash::group_hash_axioms;

/// The uppercase hex digit for `d < 16`.
pub open spec fn hex_upper(d: u32) -> char {
    if d < 10 { ((0x30 + d) as u8) as char } else { ((0x41 + d - 10) as u8) as char }
}

/// Bits `4k..4k+4` of `n`, counted from the least significant nibble.
pub open spec fn nibble(n: u32, k: u32) -> u32 {
    (n >> (4 * k)) & 0xf
}

/// The 8-character uppercase hex rendering of `n`, most significant nibble first.
pub open spec fn hex8(n: u32) -> Seq<char> {
    seq![
        hex_upper(nibble(n, 7)), hex_upper(nibble(n, 6)), hex_upper(nibble(n, 5)), hex_upper(nibble(n, 4)),
        hex_upper(nibble(n, 3)), hex_upper(nibble(n, 2)), hex_upper(nibble(n, 1)), hex_upper(nibble(n, 0)),
    ]
}

proof fn lemma_nibble_bound(n: u32, k: u32)
    requires
        k < 8,
    ensures
        nibble(n, k) < 16,
{
    assert(((n >> (4 * k)) & 0xf) < 16) by (bit_vector);
}

proof fn lemma_hex_upper_injective(a: u32, b: u32)
    requires
        a < 16,
        b < 16,
        hex_upper(a) == hex_upper(b),
    ensures
        a == b,
{
    let ca = if a < 10 { (0x30 + a) as u8 } else { (0x41 + a - 10) as u8 };
    let cb = if b < 10 { (0x30 + b) as u8 } else { (0x41 + b - 10) as u8 };
    vstd::utf8::char_u32_cast(ca as char, (ca as char) as u32);
    assert((ca as char) as u32 == ca as u32);
    assert((cb as char) as u32 == cb as u32);
}

proof fn lemma_nibbles_determine(a: u32, b: u32)
    requires
        forall|k: u32| k < 8 ==> nibble(a, k) == nibble(b, k),
    ensures
        a == b,
{
    assert(nibble(a, 0) == nibble(b, 0));
    assert(nibble(a, 1) == nibble(b, 1));
    assert(nibble(a, 2) == nibble(b, 2));
    assert(nibble(a, 3) == nibble(b, 3));
    assert(nibble(a, 4) == nibble(b, 4));
    assert(nibble(a, 5) == nibble(b, 5));
    assert(nibble(a, 6) == nibble(b, 6));
    assert(nibble(a, 7) == nibble(b, 7));
    assert(
        ((a >> 0) & 0xf) == ((b >> 0) & 0xf) && ((a >> 4) & 0xf) == ((b >> 4) & 0xf)
        && ((a >> 8) & 0xf) == ((b >> 8) & 0xf) && ((a >> 12) & 0xf) == ((b >> 12) & 0xf)
        && ((a >> 16) & 0xf) == ((b >> 16) & 0xf) && ((a >> 20) & 0xf) == ((b >> 20) & 0xf)
        && ((a >> 24) & 0xf) == ((b >> 24) & 0xf) && ((a >> 28) & 0xf) == ((b >> 28) & 0xf)
        ==> a == b
    ) by (bit_vector);
}

/// Distinct 32-bit values render as distinct trackIds.
pub proof fn lemma_hex8_injective(a: u32, b: u32)
    requires
        hex8(a) == hex8(b),
    ensures
        a == b,
{
    assert forall|k: u32| k < 8 implies nibble(a, k) == nibble(b, k) by {
        lemma_nibble_bound(a, k);
        lemma_nibble_bound(b, k);
        assert(hex8(a)[7 - k] == hex_upper(nibble(a, k)));
        assert(hex8(b)[7 - k] == hex_upper(nibble(b, k)));
        lemma_hex_upper_injective(nibble(a, k), nibble(b, k));
    }
    lemma_nibbles_determine(a, b);
}

fn hex_upper_exec(d: u32) -> (res: char)
    requires
        d < 16,
    ensures
        res == hex_upper(d),
{
    if d < 10 { ((0x30 + d) as u8) as char } else { ((0x41 + d - 10) as u8) as char }
}

/// The trackId for a 32-bit value.
pub fn render_track_id(n: u32) -> (res: String)
    ensures
        res@ == hex8(n),
{
    let mut out = String::new();
    let mut k: u32 = 8;
    while k > 0
        invariant
            k <= 8,
            out@.len() == 8 - k,
            forall|j: int| 0 <= j < 8 - k ==> out@[j] == hex8(n)[j],
        decreases k,
    {
        k = k - 1;
        let d = (n >> (4 * k)) & 0xf;
        proof {
            lemma_nibble_bound(n, k);
        }
        crate::text::push_char(&mut out, hex_upper_exec(d));
    }
    assert(out@ =~= hex8(n));
    out
}

/// rand's seedable standard generator, carried through opaquely.
#[verifier::external_type_specification]
#[verifier::external_body]
pub struct ExStdRng(StdRng);

/// A uniformly random 32-bit value drawn from `rng` (rand's `RngExt::random` for 4 bytes,
/// read big-endian). Nothing is promised of the value.
#[verifier::external_body]
fn random_u32(rng: &mut StdRng) -> u32 {
    let bytes: [u8; 4] = rand::RngExt::random(rng);
    u32::from_be_bytes(bytes)
}

/// How many random draws are made before falling back to probing upward for a free value.
pub const RANDOM_DRAW_ATTEMPTS: usize = 16;

/// A value not in `taken`: random draws first, then (after repeated collisions) the next
/// free value above the last draw, wrapping around.
fn fresh_value(rng: &mut StdRng, taken: &HashSet<u32>) -> (res: u32)
    requires
        taken@.finite(),
        taken@.len() < 0x1_0000_0000,
    ensures
        !taken@.contains(res),
{
    let mut attempt: usize = 0;
    let mut candidate = random_u32(rng);
    while attempt < RANDOM_DRAW_ATTEMPTS && taken.contains(&candidate)
        invariant
            attempt <= RANDOM_DRAW_ATTEMPTS,
        decreases RANDOM_DRAW_ATTEMPTS - attempt,
    {
        candidate = random_u32(rng);
        attempt = attempt + 1;
    }
    if !taken.contains(&candidate) {
        return candidate;
    }
    proof {
        lemma_some_value_free(taken@);
    }
    let ghost free = choose|v: u32| !taken@.contains(v);
    let ghost mut dist: int = (free as int - candidate as int) % 0x1_0000_0000;
    while taken.contains(&candidate)
        invariant
            !taken@.contains(free),
            0 <= dist < 0x1_0000_0000,
            (candidate as int + dist) % 0x1_0000_0000 == free as int,
        decreases dist,
    {
        assert(candidate != free);
        assert(dist != 0);
        let ghost old_c = candidate;
        candidate = candidate.wrapping_add(1);
        proof {
            dist = dist - 1;
            assert((candidate as int + dist) % 0x1_0000_0000 == free as int) by {
                if old_c == 0xffff_ffff {
                    assert(candidate == 0);
                    assert((0xffff_ffff + dist + 1) % 0x1_0000_0000 == dist % 0x1_0000_0000);
                } else {
                    assert(candidate == old_c + 1);
                }
            }
        }
    }
    candidate
}

proof fn lemma_some_value_free(taken: Set<u32>)
    requires
        taken.finite(),
        taken.len() < 0x1_0000_0000,
    ensures
        exists|v: u32| !taken.contains(v),
{
    if forall|v: u32| taken.contains(v) {
        <u32 as vstd::set_lib::FiniteRange>::range_properties(0, 0xffff_ffff);
        let all = Set::<u32>::range(0, 0xffff_ffff).insert(0xffff_ffff);
        assert(all.subset_of(taken));
        vstd::set_lib::lemma_len_subset(all, taken);
    }
}

/// Generate a trackId whose 32-bit value is not in `used`, and record that value in `used`.
pub fn generate_unique_track_id_8_hex(rng: &mut StdRng, used: &mut HashSet<u32>) -> (res: String)
    requires
        old(used)@.finite(),
        old(used)@.len() < 0x1_0000_0000,
    ensures
        exists|v: u32| !old(used)@.contains(v) && res@ == hex8(v) && final(used)@ == old(used)@.insert(v),
{
    let v = fresh_value(rng, used);
    used.insert(v);
    render_track_id(v)
}

/// Stable objectId ↔ trackId bookkeeping for the lifetime of the process.
#[derive(Debug)]
pub struct TrackIdRegistry {
    entries: Vec<(usize, u32)>,
    taken: HashSet<u32>,
}

impl TrackIdRegistry {
    /// The registered (object_id, value) pairs, in registration order.
    pub closed spec fn entries(&self) -> Seq<(usize, u32)> {
        self.entries@
    }

    /// Object ids and trackId values are each registered at most once, and the set of
    /// taken values is exactly the registered ones.
    pub closed spec fn wf(&self) -> bool {
        &&& forall|i: int, j: int| 0 <= i < j < self.entries@.len() ==> self.entries@[i].0 != self.entries@[j].0
        &&& forall|i: int, j: int| 0 <= i < j < self.entries@.len() ==> self.entries@[i].1 != self.entries@[j].1
        &&& self.taken@.finite()
        &&& self.taken@.len() == self.entries@.len()
        &&& forall|v: u32| self.taken@.contains(v) <==> exists|i: int| 0 <= i < self.entries@.len() && #[trigger] self.entries@[i].1 == v
    }

    /// The trackId of `object_id`, if one has been created.
    pub open spec fn track_id_of(&self, object_id: usize) -> Option<Seq<char>> {
        if exists|i: int| 0 <= i < self.entries().len() && #[trigger] self.entries()[i].0 == object_id {
            let i = choose|i: int| 0 <= i < self.entries().len() && #[trigger] self.entries()[i].0 == object_id;
            Some(hex8(self.entries()[i].1))
        } else {
            None
        }
    }

    /// How many object IDs are registered.
    pub fn registered_len(&self) -> (res: usize)
        ensures
            res == self.entries().len(),
    {
        self.entries.len()
    }

    /// The registered object IDs, in registration order.
    pub fn registered_object_ids(&self) -> (res: Vec<usize>)
        ensures
            res@ == self.entries().map_values(|e: (usize, u32)| e.0),
            self.wf() ==> res@.no_duplicates(),
    {
        let mut out: Vec<usize> = Vec::new();
        let mut i: usize = 0;
        while i < self.entries.len()
            invariant
                i <= self.entries@.len(),
                out@ == self.entries@.subrange(0, i as int).map_values(|e: (usize, u32)| e.0),
            decreases self.entries.len() - i,
        {
            out.push(self.entries[i].0);
            proof {
                assert(self.entries@.subrange(0, i + 1).map_values(|e: (usize, u32)| e.0)
                    =~= self.entries@.subrange(0, i as int).map_values(|e: (usize, u32)| e.0).push(self.entries@[i as int].0));
            }
            i = i + 1;
        }
        assert(self.entries@.subrange(0, self.entries@.len() as int) =~= self.entries@);
        proof {
            if self.wf() {
                assert forall|a: int, b: int| 0 <= a < out@.len() && 0 <= b < out@.len() && a != b
                    implies out@[a] != out@[b] by {
                    if a < b {
                        assert(self.entries@[a].0 != self.entries@[b].0);
                    } else {
                        assert(self.entries@[b].0 != self.entries@[a].0);
                    }
                }
            }
        }
        out
    }

    pub fn new() -> (res: Self)
        ensures
            res.wf(),
            res.entries().len() == 0,
    {
        TrackIdRegistry { entries: Vec::new(), taken: HashSet::new() }
    }

    fn find_object(&self, object_id: usize) -> (res: Option<usize>)
        ensures
            match res {
                Some(i) => i < self.entries@.len() && self.entries@[i as int].0 == object_id,
                None => forall|i: int| 0 <= i < self.entries@.len() ==> self.entries@[i].0 != object_id,
            },
    {
        let mut i: usize = 0;
        while i < self.entries.len()
            invariant
                i <= self.entries@.len(),
                forall|k: int| 0 <= k < i ==> self.entries@[k].0 != object_id,
            decreases self.entries.len() - i,
        {
            if self.entries[i].0 == object_id {
                return Some(i);
            }
            i = i + 1;
        }
        None
    }

    /// Get the stable trackId for a layout slot, generating and registering a fresh one on
    /// first call.
    pub fn get_or_create(&mut self, object_id: usize, rng: &mut StdRng) -> (res: String)
        requires
            old(self).wf(),
            old(self).entries().len() < 0xffff_ffff,
        ensures
            final(self).wf(),
            old(self).track_id_of(object_id) matches Some(t) ==> res@ == t && final(self).entries() == old(self).entries(),
            old(self).track_id_of(object_id) is None ==> exists|v: u32| {
                &&& final(self).entries() == old(self).entries().push((object_id, v))
                &&& res@ == hex8(v)
            },
            final(self).track_id_of(object_id) == Some(res@),
            forall|o: usize| o != object_id ==> #[trigger] final(self).track_id_of(o) == old(self).track_id_of(o),
    {
        match self.find_object(object_id) {
            Some(i) => {
                let v = self.entries[i].1;
                proof {
                    let j = choose|j: int| 0 <= j < self.entries@.len() && #[trigger] self.entries@[j].0 == object_id;
                    assert(j == i as int);
                }
                render_track_id(v)
            },
            None => {
                let v = fresh_value(rng, &self.taken);
                let ghost old_entries = self.entries@;
                self.taken.insert(v);
                self.entries.push((object_id, v));
                proof {
                    assert forall|x: u32| self.taken@.contains(x) implies exists|i: int| 0 <= i < self.entries@.len() && #[trigger] self.entries@[i].1 == x by {
                        if x == v {
                            assert(self.entries@[old_entries.len() as int].1 == v);
                        } else {
                            assert(old(self).taken@.contains(x));
                            let i = choose|i: int| 0 <= i < old_entries.len() && #[trigger] old_entries[i].1 == x;
                            assert(self.entries@[i] == old_entries[i]);
                        }
                    }
                    assert forall|x: u32| (exists|i: int| 0 <= i < self.entries@.len() && #[trigger] self.entries@[i].1 == x) implies self.taken@.contains(x) by {
                        let i = choose|i: int| 0 <= i < self.entries@.len() && #[trigger] self.entries@[i].1 == x;
                        if i < old_entries.len() {
                            assert(old_entries[i].1 == x);
                            assert(old(self).taken@.contains(x));
                        } else {
                            assert(x == v);
                        }
                    }
                    assert forall|i: int, j: int| 0 <= i < j < self.entries@.len() implies self.entries@[i].1 != self.entries@[j].1 by {
                        if j == old_entries.len() {
                            assert(old_entries[i].1 == self.entries@[i].1);
                        }
                    }
                    let k = old_entries.len() as int;
                    assert(self.entries@[k].0 == object_id);
                    let j = choose|j: int| 0 <= j < self.entries@.len() && #[trigger] self.entries@[j].0 == object_id;
                    assert(j == k);
                    assert forall|o: usize| o != object_id implies #[trigger] self.track_id_of(o) == old(self).track_id_of(o) by {
                        if exists|i: int| 0 <= i < old_entries.len() && #[trigger] old_entries[i].0 == o {
                            let i = choose|i: int| 0 <= i < old_entries.len() && #[trigger] old_entries[i].0 == o;
                            assert(self.entries@[i].0 == o);
                            let i2 = choose|i2: int| 0 <= i2 < self.entries@.len() && #[trigger] self.entries@[i2].0 == o;
                            assert(i2 == i);
                        } else {
                            assert forall|i: int| 0 <= i < self.entries@.len() implies #[trigger] self.entries@[i].0 != o by {
                                if i < k {
                                    assert(old_entries[i] == self.entries@[i]);
                                }
                            }
                        }
                    }
                }
                render_track_id(v)
            },
        }
    }

    /// Resolve a Console 1 `trackId` back to its objectId, if known.
    pub fn object_id_for_track_id(&self, track_id: &str) -> (res: Option<usize>)
        requires
            self.wf(),
        ensures
            match res {
                Some(o) => self.track_id_of(o) == Some(track_id@),
                None => forall|o: usize| self.track_id_of(o) != Some(track_id@),
            },
    {
        let mut i: usize = 0;
        while i < self.entries.len()
            invariant
                self.wf(),
                i <= self.entries@.len(),
                forall|k: int| 0 <= k < i ==> hex8(#[trigger] self.entries@[k].1) != track_id@,
            decreases self.entries.len() - i,
        {
            let rendered = render_track_id(self.entries[i].1);
            if crate::text::str_eq(rendered.as_str(), track_id) {
                let o = self.entries[i].0;
                proof {
                    assert(self.entries@[i as int].0 == o);
                    assert(self.entries()[i as int].0 == o);
                    let j = choose|j: int| 0 <= j < self.entries().len() && #[trigger] self.entries()[j].0 == o;
                    if j < i as int {
                        assert(self.entries@[j].0 != self.entries@[i as int].0);
                    } else if j > i as int {
                        assert(self.entries@[i as int].0 != self.entries@[j].0);
                    }
                    assert(j == i as int);
                    assert(self.track_id_of(o) == Some(hex8(self.entries@[i as int].1)));
                }
                return Some(o);
            }
            i = i + 1;
        }
        proof {
            assert forall|o: usize| self.track_id_of(o) != Some(track_id@) by {
                if exists|j: int| 0 <= j < self.entries@.len() && #[trigger] self.entries@[j].0 == o {
                    let j = choose|j: int| 0 <= j < self.entries@.len() && #[trigger] self.entries@[j].0 == o;
                    assert(hex8(self.entries@[j].1) != track_id@);
                }
            }
        }
        None
    }
}

/// Two registered slots never share a trackId.
pub proof fn lemma_track_ids_distinct(reg: TrackIdRegistry, a: usize, b: usize)
    requires
        reg.wf(),
        a != b,
        reg.track_id_of(a) is Some,
        reg.track_id_of(b) is Some,
    ensures
        reg.track_id_of(a) != reg.track_id_of(b),
{
    let i = choose|i: int| 0 <= i < reg.entries().len() && #[trigger] reg.entries()[i].0 == a;
    let j = choose|j: int| 0 <= j < reg.entries().len() && #[trigger] reg.entries()[j].0 == b;
    assert(i != j);
    assert(reg.entries()[i].1 != reg.entries()[j].1) by {
        reveal(TrackIdRegistry::wf);
        if i < j {
        } else {
        }
    }
    if hex8(reg.entries()[i].1) == hex8(reg.entries()[j].1) {
        lemma_hex8_injective(reg.entries()[i].1, reg.entries()[j].1);
    }
}

/// `c` is an uppercase hex digit.
pub open spec fn is_upper_hex_digit(c: char) -> bool {
    ('0' <= c && c <= '9') || ('A' <= c && c <= 'F')
}

/// A trackId is eight uppercase hex digits.
pub proof fn lemma_track_id_format(v: u32)
    ensures
        hex8(v).len() == 8,
        forall|k: int| 0 <= k < 8 ==> is_upper_hex_digit(#[trigger] hex8(v)[k]),
{
    assert forall|k: int| 0 <= k < 8 implies is_upper_hex_digit(#[trigger] hex8(v)[k]) by {
        lemma_nibble_bound(v, (7 - k) as u32);
        let d = nibble(v, (7 - k) as u32);
        assert(hex8(v)[k] == hex_upper(d));
    }
}

/// Round trip: a trackId registered for object `o` belongs to `o` alone, so resolving it
/// gives `o` back.
pub proof fn lemma_track_id_round_trip(reg: TrackIdRegistry, o: usize, other: usize)
    requires
        reg.wf(),
        reg.track_id_of(o) is Some,
        reg.track_id_of(other) == reg.track_id_of(o),
    ensures
        other == o,
{
    if other != o {
        lemma_track_ids_distinct(reg, o, other);
    }
}

/// A fresh registry resolves no trackId.
pub proof fn lemma_fresh_registry_resolves_nothing(reg: TrackIdRegistry, o: usize)
    requires
        reg.entries().len() == 0,
    ensures
        reg.track_id_of(o) is None,
{
}

/// Registering value `v` for an object `o` that had no trackId gives `o` the trackId
/// `hex8(v)` and leaves every other object's trackId as it was.
pub proof fn lemma_register_keeps_ids(before: TrackIdRegistry, after: TrackIdRegistry, o: usize, v: u32, x: usize)
    requires
        before.wf(),
        before.track_id_of(o) is None,
        after.entries() == before.entries().push((o, v)),
    ensures
        after.track_id_of(o) == Some(hex8(v)),
        x != o ==> after.track_id_of(x) == before.track_id_of(x),
{
    let n = before.entries().len() as int;
    assert(after.entries()[n].0 == o);
    assert forall|i: int| 0 <= i < after.entries().len() && #[trigger] after.entries()[i].0 == o implies i == n by {
        if i < n {
            assert(before.entries()[i].0 == o);
        }
    }
    if x != o {
        assert forall|i: int| 0 <= i < after.entries().len() && #[trigger] after.entries()[i].0 == x implies i < n
            && before.entries()[i] == after.entries()[i] by {}
        if exists|i: int| 0 <= i < before.entries().len() && #[trigger] before.entries()[i].0 == x {
            let i = choose|i: int| 0 <= i < before.entries().len() && #[trigger] before.entries()[i].0 == x;
            assert(after.entries()[i].0 == x);
            let j = choose|j: int| 0 <= j < after.entries().len() && #[trigger] after.entries()[j].0 == x;
            assert(before.entries()[j].0 == x);
            assert(i == j);
        }
    }
}

/// trackIds last: a registry that grew from `before` (keeping its entries first, as
/// `get_or_create` does) still gives every object of `before` the same trackId, and so
/// still resolves that trackId to that object alone.
pub proof fn lemma_ids_survive_growth(before: TrackIdRegistry, after: TrackIdRegistry, o: usize)
    requires
        before.wf(),
        after.wf(),
        before.entries().len() <= after.entries().len(),
        after.entries().take(before.entries().len() as int) == before.entries(),
        before.track_id_of(o) is Some,
    ensures
        after.track_id_of(o) == before.track_id_of(o),
{
    let n = before.entries().len() as int;
    let i = choose|i: int| 0 <= i < before.entries().len() && #[trigger] before.entries()[i].0 == o;
    assert(after.entries().take(n)[i] == after.entries()[i]);
    assert(after.entries()[i].0 == o);
    let j = choose|j: int| 0 <= j < after.entries().len() && #[trigger] after.entries()[j].0 == o;
    assert(i == j);
}

} // verus!
