//! Console 1 Fader MIDI port selection by name.

use crate::text::{contains_seq, str_contains};
use vstd::prelude::*;

verus! {

/// A command to the MIDI I/O thread.
#[derive(Debug)]
pub enum MidiCommand {
    /// Send a raw, already-framed SysEx message to Console 1.
    Send(Vec<u8>),
    /// Close both ports and stop the thread.
    Shutdown,
}

/// Port names preferred by default.
pub const DEFAULT_PREFERRED_PORT_NAMES: [&'static str; 1] = ["Console 1 Fader Mk III DAW"];

/// Some preferred name occurs in the port name `name`.
pub open spec fn port_matches(name: Seq<char>, preferred: Seq<&str>) -> bool {
    exists|j: int| 0 <= j < preferred.len() && contains_seq(name, #[trigger] preferred[j]@)
}

fn matches_any(name: &str, preferred: &[&str]) -> (res: bool)
    ensures
        res == port_matches(name@, preferred@),
{
    let mut j: usize = 0;
    while j < preferred.len()
        invariant
            j <= preferred@.len(),
            forall|k: int| 0 <= k < j ==> !contains_seq(name@, #[trigger] preferred@[k]@),
        decreases preferred.len() - j,
    {
        if str_contains(name, preferred[j]) {
            return true;
        }
        j = j + 1;
    }
    false
}

/// The index of the first port whose name contains any of `preferred` (case-sensitive
/// substring matching).
pub fn find_matching_port_index(port_names: &[String], preferred: &[&str]) -> (res: Option<usize>)
    ensures
        match res {
            Some(i) => i < port_names@.len() && port_matches(port_names@[i as int]@, preferred@)
                && forall|k: int| 0 <= k < i ==> !port_matches(#[trigger] port_names@[k]@, preferred@),
            None => forall|k: int| 0 <= k < port_names@.len() ==> !port_matches(#[trigger] port_names@[k]@, preferred@),
        },
{
    let mut i: usize = 0;
    while i < port_names.len()
        invariant
            i <= port_names@.len(),
            forall|k: int| 0 <= k < i ==> !port_matches(#[trigger] port_names@[k]@, preferred@),
        decreases port_names.len() - i,
    {
        if matches_any(port_names[i].as_str(), preferred) {
            return Some(i);
        }
        i = i + 1;
    }
    None
}

} // verus!
