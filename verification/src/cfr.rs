//! Integer bookkeeping of the discounted CFR solver: the strategy-reset schedule and
//! which recursion depths the debug log covers.
use vstd::prelude::*;

verus! {

/// `4^k`.
pub open spec fn pow4(k: nat) -> nat
    decreases k,
{
    if k == 0 {
        1
    } else {
        4 * pow4((k - 1) as nat)
    }
}

/// The largest power of 4 not above `x`, or 0 for `x == 0`: the iterations 1, 4, 16,
/// 64, ... at which the cumulative strategy is discounted afresh.
pub open spec fn is_nearest_lower_power_of_4(x: int, r: int) -> bool {
    if x == 0 {
        r == 0
    } else {
        exists|k: nat| r == pow4(k) && r <= x < 4 * r
    }
}

/// The largest power of 4 not above `x` (0 for 0).
pub fn nearest_lower_power_of_4(x: u32) -> (r: u32)
    ensures
        is_nearest_lower_power_of_4(x as int, r as int),
{
    if x == 0 {
        return 0;
    }
    let mut p: u32 = 1;
    let ghost mut k: nat = 0;
    while p <= x / 4
        invariant
            x > 0,
            p == pow4(k),
            1 <= p <= x,
        decreases x - p,
    {
        p = p * 4;
        proof {
            k = k + 1;
        }
    }
    assert(p == pow4(k) && p <= x < 4 * p);
    p
}

/// The debug log covers a node at `depth` under log `level`: nothing at level 0,
/// everything from level 2 on, and at level 1 the nodes at depth 2 or less.
pub open spec fn log_covers(level: u32, depth: usize) -> bool {
    level != 0 && (level >= 2 || depth <= 2)
}

/// Whether the debug log covers a node at `depth` under log `level`.
pub fn cfr_should_log(level: u32, depth: usize) -> (r: bool)
    ensures
        r == log_covers(level, depth),
{
    if level == 0 {
        return false;
    }
    if level >= 2 {
        return true;
    }
    depth <= 2
}

/// Indentation of a log line at `depth`: two spaces per level.
pub fn cfr_indent(depth: usize) -> (r: String)
    requires
        2 * depth <= usize::MAX,
    ensures
        r@.len() == 2 * depth,
        forall|i: int| 0 <= i < r@.len() ==> r@[i] == ' ',
{
    proof {
        reveal_strlit("");
    }
    let mut s = String::from_str("");
    let mut i: usize = 0;
    while i < depth
        invariant
            i <= depth,
            2 * depth <= usize::MAX,
            s@.len() == 2 * i,
            forall|j: int| 0 <= j < s@.len() ==> s@[j] == ' ',
        decreases depth - i,
    {
        proof {
            reveal_strlit("  ");
            assert("  "@ =~= seq![' ', ' ']);
        }
        let ghost before = s@;
        s.append("  ");
        assert(s@ =~= before + seq![' ', ' ']);
        i = i + 1;
    }
    s
}

} // verus!
