use vstd::prelude::*;

verus! {

/// What one probe of the sorted digit file decides.
#[derive(Clone, Copy, Debug, PartialEq, Eq, Structural)]
pub enum SearchStep {
    /// The probed digit is the target.
    Found,
    /// The probe read the separator sentinel: the scan gives up.
    Halted,
    /// The window narrows and the scan goes on while `lo <= hi`.
    Narrowed { lo: u64, hi: u64 },
}

/// The probe point of a window: its midpoint, rounded down.
pub open spec fn probe_of(lo: u64, hi: u64) -> int {
    lo + (hi - lo) / 2
}

/// Where the next byte is probed.
pub fn probe_point(lo: u64, hi: u64) -> (mid: u64)
    requires
        lo <= hi,
    ensures
        mid == probe_of(lo, hi),
        lo <= mid <= hi,
{
    lo + (hi - lo) / 2
}

/// Decide one probe of the binary search over a file of sorted
/// digits: the caller reads the byte at the probe point and this
/// turns it into the next move. The byte is taken as an ASCII digit
/// (the separator sentinel is the value ten); narrowing below zero or
/// beyond the largest offset is outside the contract, exactly where
/// the scan's arithmetic would give out.
pub fn binary_search_step(lo: u64, hi: u64, target: u8, byte: u8) -> (r: SearchStep)
    requires
        lo <= hi,
        byte >= 48,
        target < byte - 48 ==> probe_of(lo, hi) >= 1,
        target > byte - 48 ==> probe_of(lo, hi) < u64::MAX,
    ensures
        ({
            let mid = probe_of(lo, hi);
            let value = (byte - 48) as u8;
            if value == 10 {
                r == SearchStep::Halted
            } else if value == target {
                r == SearchStep::Found
            } else if target < value {
                r == (SearchStep::Narrowed { lo: lo, hi: (mid - 1) as u64 })
            } else {
                r == (SearchStep::Narrowed { lo: (mid + 1) as u64, hi: hi })
            }
        }),
{
    let mid = probe_point(lo, hi);
    let value = byte - 48;
    if value == 10 {
        return SearchStep::Halted;
    }
    if value == target {
        return SearchStep::Found;
    }
    if target < value {
        SearchStep::Narrowed { lo, hi: mid - 1 }
    } else {
        SearchStep::Narrowed { lo: mid + 1, hi }
    }
}

} // verus!
