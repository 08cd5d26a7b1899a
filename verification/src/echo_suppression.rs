//! Suppresses the immediate Mixing Station broadcast-echo of a value the bridge itself just
//! wrote, so it isn't mistaken for an external change: exactly one matching echo within a
//! fixed window is suppressed, then suppression stops.
//!
//! Times are readings of a monotonic clock in microseconds, passed in by the caller.

use crate::json::{JsonValue, JsonNumber, json_eq, json_equal, f64_bits_eq};
use crate::keyed::{find_text_key, key_pos, keys_unique, pairs_view, upsert, upsert_text_key, lemma_upsert_unique};
use vstd::prelude::*;

verus! {

/// How long after a write (in microseconds) an echo of it is still considered an echo.
pub const MS_ECHO_SUPPRESS_WINDOW_MICROS: u64 = 150_000;

/// The bit pattern of `1.0_f64`.
pub const F64_ONE_BITS: u64 = 0x3ff0_0000_0000_0000;

/// Loose equality as JavaScript's `==` treats the values Mixing Station sends: structural
/// equality, or numbers equal as `f64`, or a boolean against the number 1 (true) or 0 (false).
pub open spec fn loosely_eq(a: JsonValue, b: JsonValue) -> bool {
    json_eq(a, b) || match (a, b) {
        (JsonValue::Number(x), JsonValue::Number(y)) => f64_bits_eq(x.f64_bits, y.f64_bits),
        (JsonValue::Bool(x), JsonValue::Number(y)) => f64_bits_eq(y.f64_bits, if x { F64_ONE_BITS } else { 0 }),
        (JsonValue::Number(x), JsonValue::Bool(y)) => f64_bits_eq(x.f64_bits, if y { F64_ONE_BITS } else { 0 }),
        _ => false,
    }
}

fn bits_eq(a: u64, b: u64) -> (res: bool)
    ensures
        res == f64_bits_eq(a, b),
{
    a == b || ((a == 0 || a == 0x8000_0000_0000_0000) && (b == 0 || b == 0x8000_0000_0000_0000))
}

fn loosely_equal(a: &JsonValue, b: &JsonValue) -> (res: bool)
    ensures
        res == loosely_eq(*a, *b),
{
    if json_equal(a, b) {
        return true;
    }
    match (a, b) {
        (JsonValue::Number(x), JsonValue::Number(y)) => bits_eq(x.f64_bits, y.f64_bits),
        (JsonValue::Bool(x), JsonValue::Number(y)) => bits_eq(y.f64_bits, if *x { F64_ONE_BITS } else { 0 }),
        (JsonValue::Number(x), JsonValue::Bool(y)) => bits_eq(x.f64_bits, if *y { F64_ONE_BITS } else { 0 }),
        _ => false,
    }
}

/// A write the bridge made: the value and when.
#[derive(Debug)]
pub struct RecentWrite {
    pub value: JsonValue,
    pub at: u64,
}

/// The pending writes, by `"<path>|<format>"` key, in first-written order.
pub type PendingWrites = Seq<(Seq<char>, RecentWrite)>;

/// Whether an inbound `value` for `key` at `now` is the echo of a pending write, and the
/// pending writes afterwards: no pending write means no echo; a pending write older than
/// the window is dropped without suppressing; a loosely-equal value consumes the pending
/// write and is suppressed; any other value leaves it armed.
pub open spec fn suppress_outcome(s: PendingWrites, key: Seq<char>, value: JsonValue, now: u64) -> (bool, PendingWrites) {
    match key_pos(s, key) {
        None => (false, s),
        Some(i) => {
            let rec = s[i].1;
            if now >= rec.at && now - rec.at > MS_ECHO_SUPPRESS_WINDOW_MICROS {
                (false, s.remove(i))
            } else if loosely_eq(rec.value, value) {
                (true, s.remove(i))
            } else {
                (false, s)
            }
        },
    }
}

/// Tracks the bridge's own pending writes to Mixing Station so their echoes can be
/// recognized and dropped. At most one write per key is pending.
#[derive(Debug)]
pub struct EchoSuppressionTracker {
    recent_writes: Vec<(String, RecentWrite)>,
}

impl EchoSuppressionTracker {
    /// The pending writes.
    pub closed spec fn pending(&self) -> PendingWrites {
        pairs_view(self.recent_writes@)
    }

    pub closed spec fn wf(&self) -> bool {
        keys_unique(self.pending())
    }

    /// Creates a tracker with no pending writes.
    pub fn new() -> (res: Self)
        ensures
            res.wf(),
            res.pending().len() == 0,
    {
        EchoSuppressionTracker { recent_writes: Vec::new() }
    }

    /// Records that the bridge wrote `value` to `key` at `at`; a second write for the same
    /// key replaces the first.
    pub fn note_write(&mut self, key: &str, value: JsonValue, at: u64)
        requires
            old(self).wf(),
        ensures
            final(self).wf(),
            final(self).pending() == upsert(old(self).pending(), key@, RecentWrite { value, at }),
    {
        let ghost k = key@;
        let rec = RecentWrite { value, at };
        proof {
            lemma_upsert_unique(self.pending(), k, rec);
        }
        upsert_text_key(&mut self.recent_writes, crate::text::owned(key), rec);
    }

    /// Returns whether an inbound `value` for `key` at `now` is the echo of the bridge's own
    /// write and should be ignored (see [`suppress_outcome`]).
    pub fn should_suppress(&mut self, key: &str, value: &JsonValue, now: u64) -> (res: bool)
        requires
            old(self).wf(),
        ensures
            final(self).wf(),
            (res, final(self).pending()) == suppress_outcome(old(self).pending(), key@, *value, now),
    {
        let ghost s = self.pending();
        let i = match find_text_key(&self.recent_writes, key) {
            Some(i) => i,
            None => return false,
        };
        let at = self.recent_writes[i].1.at;
        if now >= at && now - at > MS_ECHO_SUPPRESS_WINDOW_MICROS {
            self.recent_writes.remove(i);
            assert(self.pending() =~= s.remove(i as int));
            return false;
        }
        if loosely_equal(&self.recent_writes[i].1.value, value) {
            self.recent_writes.remove(i);
            assert(self.pending() =~= s.remove(i as int));
            return true;
        }
        false
    }
}

proof fn lemma_remove_keeps_unique<K, V>(s: Seq<(K, V)>, i: int)
    requires
        keys_unique(s),
        0 <= i < s.len(),
    ensures
        keys_unique(s.remove(i)),
        forall|j: int| 0 <= j < s.remove(i).len() ==> s.remove(i)[j].0 != s[i].0,
{
    assert forall|a: int, b: int| 0 <= a < b < s.remove(i).len() implies s.remove(i)[a].0 != s.remove(i)[b].0 by {
        let a2 = if a < i { a } else { a + 1 };
        let b2 = if b < i { b } else { b + 1 };
        assert(s.remove(i)[a] == s[a2]);
        assert(s.remove(i)[b] == s[b2]);
    }
    assert forall|j: int| 0 <= j < s.remove(i).len() implies s.remove(i)[j].0 != s[i].0 by {
        let j2 = if j < i { j } else { j + 1 };
        assert(s.remove(i)[j] == s[j2]);
    }
}

/// A write's echo is suppressed at most once: once suppressed (or once the pending write
/// expired), the same key reports no echo until the bridge writes it again.
pub proof fn lemma_suppresses_at_most_once(s: PendingWrites, key: Seq<char>, v1: JsonValue, t1: u64, v2: JsonValue, t2: u64)
    requires
        keys_unique(s),
        suppress_outcome(s, key, v1, t1).1 != s,
    ensures
        suppress_outcome(suppress_outcome(s, key, v1, t1).1, key, v2, t2) == (false, suppress_outcome(s, key, v1, t1).1),
{
    crate::keyed::lemma_key_pos(s, key);
    let i = key_pos(s, key)->Some_0;
    lemma_remove_keeps_unique(s, i);
    crate::keyed::lemma_key_pos(s.remove(i), key);
}

/// An echo of the bridge's own write, arriving within the window with a loosely-equal
/// value, is suppressed.
pub proof fn lemma_echo_within_window_is_suppressed(s: PendingWrites, key: Seq<char>, value: JsonValue, at: u64, echo: JsonValue, now: u64)
    requires
        keys_unique(s),
        loosely_eq(value, echo),
        now >= at ==> now - at <= MS_ECHO_SUPPRESS_WINDOW_MICROS,
    ensures
        suppress_outcome(upsert(s, key, RecentWrite { value, at }), key, echo, now).0,
{
    let t = upsert(s, key, RecentWrite { value, at });
    lemma_upsert_unique(s, key, RecentWrite { value, at });
    crate::keyed::lemma_key_pos(s, key);
    crate::keyed::lemma_key_pos(t, key);
    match key_pos(s, key) {
        Some(i) => {
            assert(t[i].0 == key);
            let j = key_pos(t, key)->Some_0;
            if j != i {
                if j < i {} else {}
            }
        },
        None => {
            assert(t[s.len() as int].0 == key);
        },
    }
}

} // verus!
