//! The summary printed at the end of a run.

use crate::plan::Target;
use crate::text::{decimal, decimal_text, prefixed, wrap};
use vstd::prelude::*;

verus! {

/// Nanoseconds in a second.
pub const NANOS_PER_SEC: u32 = 1_000_000_000;

/// One unit's share of an elapsed time: the count in decimal with the unit
/// behind it, or nothing where the count is zero.
pub open spec fn unit_part(count: nat, unit: Seq<char>) -> Seq<char> {
    if count == 0 {
        Seq::empty()
    } else {
        decimal(count) + unit
    }
}

/// A list of parts with one more part, a comma between them; an empty part
/// adds nothing.
pub open spec fn listed(list: Seq<char>, part: Seq<char>) -> Seq<char> {
    if part.len() == 0 {
        list
    } else if list.len() == 0 {
        part
    } else {
        list + seq![','] + part
    }
}

/// A duration of `secs` seconds and `nanos` nanoseconds in whole microseconds.
pub open spec fn total_micros(secs: u64, nanos: u32) -> nat {
    (secs * 1_000_000 + nanos / 1000) as nat
}

/// An elapsed time as text: its whole microseconds split into days, hours,
/// minutes, seconds, milliseconds and microseconds, the units that count
/// zero left out, the others from the largest down with commas between
/// them, as in `1d,2h,3m,4s,5ms,6\u{3bc}s`.  Less than a microsecond is
/// `0\u{3bc}s`.
pub open spec fn elapsed_text(secs: u64, nanos: u32) -> Seq<char> {
    let micros = total_micros(secs, nanos);
    if micros == 0 {
        "0\u{3bc}s"@
    } else {
        listed(
            listed(
                listed(
                    listed(
                        listed(
                            unit_part(micros / 86_400_000_000, "d"@),
                            unit_part(micros % 86_400_000_000 / 3_600_000_000, "h"@),
                        ),
                        unit_part(micros % 3_600_000_000 / 60_000_000, "m"@),
                    ),
                    unit_part(micros % 60_000_000 / 1_000_000, "s"@),
                ),
                unit_part(micros % 1_000_000 / 1000, "ms"@),
            ),
            unit_part(micros % 1000, "\u{3bc}s"@),
        )
    }
}

/// Renders a duration with `human_time::ToHumanTimeString::to_human_time_string`.
/// Trusted: the text is the one that `elapsed_text` states, which is what
/// that function makes of the duration's whole microseconds.  The duration
/// is built with `Duration::new`, which needs `nanos` below a full second.
#[verifier::external_body]
fn human_elapsed(secs: u64, nanos: u32) -> (text: String)
    requires
        nanos < NANOS_PER_SEC,
    ensures
        text@ == elapsed_text(secs, nanos),
{
    human_time::ToHumanTimeString::to_human_time_string(&std::time::Duration::new(secs, nanos))
}

/// A duration in nanoseconds.
pub open spec fn total_nanos(secs: u64, nanos: u32) -> nat {
    (secs * NANOS_PER_SEC + nanos) as nat
}

/// The three lines of a summary: the inodes created, the time it took as
/// text, and the average time for one inode in whole nanoseconds.
pub open spec fn summary_of(total_inodes: nat, elapsed: Seq<char>, nanos: nat) -> Seq<Seq<char>>
    recommends
        total_inodes > 0,
{
    seq![
        "Total inodes created: "@ + decimal(total_inodes),
        "Elapsed time: "@ + elapsed,
        "Time per inode: "@ + decimal(nanos / total_inodes) + "ns"@,
    ]
}

/// Writes the summary for `total_inodes` inodes made in `nanos` nanoseconds,
/// `elapsed` being that time as text.
pub fn compose_summary(total_inodes: u64, elapsed: &str, nanos: u128) -> (lines: Vec<String>)
    requires
        total_inodes > 0,
    ensures
        lines.deep_view() == summary_of(total_inodes as nat, elapsed@, nanos as nat),
{
    let count = decimal_text(total_inodes as u128);
    let each = decimal_text(nanos / (total_inodes as u128));
    let mut lines: Vec<String> = Vec::new();
    lines.push(prefixed("Total inodes created: ", count.as_str()));
    lines.push(prefixed("Elapsed time: ", elapsed));
    lines.push(wrap("Time per inode: ", each.as_str(), "ns"));
    assert(lines.deep_view() =~= summary_of(total_inodes as nat, elapsed@, nanos as nat));
    lines
}

/// The summary of a run for `target` that took `secs` seconds and
/// `subsec_nanos` nanoseconds.
pub fn summary(target: &Target, secs: u64, subsec_nanos: u32) -> (lines: Vec<String>)
    requires
        subsec_nanos < NANOS_PER_SEC,
    ensures
        lines.deep_view() == summary_of(
            target@.total,
            elapsed_text(secs, subsec_nanos),
            total_nanos(secs, subsec_nanos),
        ),
{
    let elapsed = human_elapsed(secs, subsec_nanos);
    let whole: u128 = secs as u128;
    let nanos: u128 = whole * 1_000_000_000 + (subsec_nanos as u128);
    compose_summary(target.total_inodes(), elapsed.as_str(), nanos)
}

} // verus!
