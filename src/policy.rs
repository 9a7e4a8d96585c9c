//! The policy selector: how deep a run may go, given the input's size.

use vstd::prelude::*;

verus! {

pub const MIB: usize = 1024 * 1024;

/// The depth limit for an input of `len` bytes. A `requested` depth of zero
/// means that the caller asked for none: the default is 2 above 200 MiB, 3 above
/// 100 MiB, 4 above 50 MiB and 5 otherwise. A requested depth is capped at 3,
/// 5 and 7 in those tiers and kept as it is below them.
pub open spec fn effective_max_depth_spec(len: nat, requested: nat) -> nat {
    if requested == 0 {
        if len > 200 * MIB {
            2
        } else if len > 100 * MIB {
            3
        } else if len > 50 * MIB {
            4
        } else {
            5
        }
    } else {
        let cap: nat = if len > 200 * MIB {
            3
        } else if len > 100 * MIB {
            5
        } else if len > 50 * MIB {
            7
        } else {
            requested
        };
        if requested <= cap {
            requested
        } else {
            cap
        }
    }
}

/// Computes the depth limit of a run; see [`effective_max_depth_spec`].
pub fn effective_max_depth(len: usize, requested: usize) -> (r: usize)
    ensures
        r == effective_max_depth_spec(len as nat, requested as nat),
{
    if requested == 0 {
        if len > 200 * MIB {
            2
        } else if len > 100 * MIB {
            3
        } else if len > 50 * MIB {
            4
        } else {
            5
        }
    } else {
        let cap: usize = if len > 200 * MIB {
            3
        } else if len > 100 * MIB {
            5
        } else if len > 50 * MIB {
            7
        } else {
            requested
        };
        if requested <= cap {
            requested
        } else {
            cap
        }
    }
}

} // verus!
