//! Track durations, compared by the bit patterns of their seconds.

use vstd::prelude::*;

verus! {

/// A number of seconds, given by its bits as a binary floating-point number of 64 bits.
#[derive(Clone, Copy, Debug, PartialEq, Eq, Structural)]
pub struct Seconds {
    pub bits: u64,
}

/// A track's duration as it was reported, with what comparing it takes: the nearest whole number of
/// seconds, and the absolute difference from the duration that is wanted.
#[derive(Clone, Copy, Debug, PartialEq, Eq, Structural)]
pub struct MeasuredDuration {
    pub seconds: Seconds,
    pub whole: Seconds,
    pub distance: Seconds,
}

/// The bits of three seconds.
pub const NEARBY: u64 = 0x4008_0000_0000_0000;

/// The bits of the largest finite number: the distance of a track whose duration is unknown.
pub const FARTHEST: u64 = 0x7fef_ffff_ffff_ffff;

/// The bits of a number without its sign.
pub open spec fn magnitude(bits: u64) -> int {
    bits as int % 0x8000_0000_0000_0000
}

/// Whether two numbers are equal: no number equals one that is not a number, and the two zeros
/// are equal.
pub open spec fn equal_numbers(a: Seconds, b: Seconds) -> bool {
    &&& magnitude(a.bits) <= 0x7ff0_0000_0000_0000
    &&& magnitude(b.bits) <= 0x7ff0_0000_0000_0000
    &&& a.bits == b.bits || (magnitude(a.bits) == 0 && magnitude(b.bits) == 0)
}

/// How well a duration fits: 0 if it is the wanted one to the second, 1 if it differs by less than
/// three seconds, 2 otherwise and where it is unknown. Of numbers without a sign the smaller has
/// the smaller bits.
pub open spec fn tier(candidate: Option<MeasuredDuration>, wanted: Seconds) -> u8 {
    match candidate {
        Some(duration) => if equal_numbers(duration.whole, wanted) {
            0
        } else if duration.distance.bits < NEARBY {
            1
        } else {
            2
        },
        None => 2,
    }
}

/// Whether two numbers are equal.
fn same_number(a: Seconds, b: Seconds) -> (same: bool)
    ensures
        same == equal_numbers(a, b),
{
    let x: u64 = a.bits % 0x8000_0000_0000_0000u64;
    let y: u64 = b.bits % 0x8000_0000_0000_0000u64;
    x <= 0x7ff0_0000_0000_0000u64 && y <= 0x7ff0_0000_0000_0000u64 && (a.bits == b.bits || (x == 0
        && y == 0))
}

/// How well a duration fits the wanted one, given in whole seconds.
pub fn duration_tier(candidate: Option<MeasuredDuration>, wanted: Seconds) -> (out: u8)
    ensures
        out == tier(candidate, wanted),
{
    match candidate {
        Some(duration) => {
            if same_number(duration.whole, wanted) {
                0
            } else if duration.distance.bits < NEARBY {
                1
            } else {
                2
            }
        },
        None => 2,
    }
}

/// A duration that is not known fits worst. One that is known fits best if its whole seconds are
/// those that are wanted: the same bits, unless they are no number, or zero with either sign. Next
/// come those whose distance, as bits, is below three seconds.
pub proof fn law_tiers(duration: MeasuredDuration, wanted: Seconds)
    ensures
        tier(None, wanted) == 2,
        ({
            let a = duration.whole.bits;
            let b = wanted.bits;
            tier(Some(duration), wanted) == 0 <==> {
                ||| a == b && (b <= 0x7ff0_0000_0000_0000 || 0x8000_0000_0000_0000 <= b
                    <= 0xfff0_0000_0000_0000)
                ||| (a == 0 || a == 0x8000_0000_0000_0000) && (b == 0 || b
                    == 0x8000_0000_0000_0000)
            }
        }),
        duration.distance.bits < 0x4008_0000_0000_0000 ==> tier(Some(duration), wanted) <= 1,
        duration.distance.bits >= 0x4008_0000_0000_0000 ==> tier(Some(duration), wanted) != 1,
        tier(Some(duration), wanted) <= 2,
{
}

/// Of two durations that are not the wanted one to the second, the nearer fits no worse; and how far
/// one is does not matter if it is the wanted one.
pub proof fn law_nearer_fits(a: MeasuredDuration, b: MeasuredDuration, wanted: Seconds)
    ensures
        a.whole == b.whole && a.distance.bits <= b.distance.bits ==> tier(Some(a), wanted) <= tier(
            Some(b),
            wanted,
        ),
        a.whole == b.whole && tier(Some(a), wanted) == 0 ==> tier(Some(b), wanted) == 0,
        a.whole == b.whole && a.distance == b.distance ==> tier(Some(a), wanted) == tier(
            Some(b),
            wanted,
        ),
{
}

} // verus!
