//! Status detection for the two topbar indicators (Mixing Station, Console 1 On-Screen
//! Display) from already-gathered process command lines.

use crate::text::{contains_seq, str_contains};
use vstd::prelude::*;

verus! {

/// One snapshot of both status indicators.
#[derive(Debug, Clone, Copy, PartialEq, Eq, Structural)]
pub struct StatusSnapshot {
    pub mixing_station: bool,
    pub console1_osd: bool,
}

/// Some command line contains `needle` (case-sensitive substring match).
pub open spec fn any_line_contains(lines: Seq<String>, needle: Seq<char>) -> bool {
    exists|i: int| 0 <= i < lines.len() && contains_seq(#[trigger] lines[i]@, needle)
}

fn any_contains(lines: &[String], needle: &str) -> (res: bool)
    ensures
        res == any_line_contains(lines@, needle@),
{
    let mut i: usize = 0;
    while i < lines.len()
        invariant
            i <= lines@.len(),
            forall|k: int| 0 <= k < i ==> !contains_seq(#[trigger] lines@[k]@, needle@),
        decreases lines.len() - i,
    {
        if str_contains(lines[i].as_str(), needle) {
            return true;
        }
        i = i + 1;
    }
    false
}

/// Computes both indicators from full process command lines: Mixing Station is up when
/// some line contains `mixing-station`, the OSD when some line contains
/// `Softube On-Screen Display`.
pub fn compute_status(process_command_lines: &[String]) -> (res: StatusSnapshot)
    ensures
        res.mixing_station == any_line_contains(process_command_lines@, "mixing-station"@),
        res.console1_osd == any_line_contains(process_command_lines@, "Softube On-Screen Display"@),
{
    StatusSnapshot {
        mixing_station: any_contains(process_command_lines, "mixing-station"),
        console1_osd: any_contains(process_command_lines, "Softube On-Screen Display"),
    }
}

} // verus!
