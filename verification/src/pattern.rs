//! The rotating 4-bit pattern value.
//!
//! Successive values decrement modulo 16: 15, 14, ..., 1, 0, 15, ...

use vstd::prelude::*;

verus! {

/// Number of distinct pattern values: a value is in `0..PATTERN_PERIOD`.
pub const PATTERN_PERIOD: usize = 16;

/// The value a task holds before it has computed its first one. The first
/// value it computes is therefore 15.
pub const PATTERN_START: usize = 0;

/// Whether `v` is a pattern value.
pub open spec fn is_pattern(v: int) -> bool {
    0 <= v < PATTERN_PERIOD
}

/// The value that follows `v` in the cycle.
pub open spec fn spec_successor(v: int) -> int {
    if v == 0 {
        PATTERN_PERIOD - 1
    } else {
        v - 1
    }
}

/// The value reached from `start` in `n` steps of the cycle.
pub open spec fn spec_nth(start: int, n: nat) -> int
    decreases n,
{
    if n == 0 {
        start
    } else {
        spec_successor(spec_nth(start, (n - 1) as nat))
    }
}

/// Steps the pattern once: decrements modulo 16, wrapping 0 to 15.
pub fn successor(v: usize) -> (next: usize)
    requires
        is_pattern(v as int),
    ensures
        next == spec_successor(v as int),
        is_pattern(next as int),
{
    if v == 0 {
        PATTERN_PERIOD - 1
    } else {
        v - 1
    }
}

/// The value reached from `start` in `n` steps, computed directly.
pub fn nth(start: usize, n: u64) -> (v: usize)
    requires
        is_pattern(start as int),
    ensures
        v == spec_nth(start as int, n as nat),
        is_pattern(v as int),
{
    proof {
        lemma_nth_closed_form(start as int, n as nat);
    }
    let back: usize = (n % 16) as usize;
    if back <= start {
        start - back
    } else {
        start + PATTERN_PERIOD - back
    }
}

/// A step never leaves the range, and `n` steps from `start` arrive at
/// `start - n` modulo 16.
pub proof fn lemma_nth_closed_form(start: int, n: nat)
    requires
        is_pattern(start),
    ensures
        is_pattern(spec_nth(start, n)),
        spec_nth(start, n) == (start - n) % 16,
    decreases n,
{
    if n > 0 {
        lemma_nth_closed_form(start, (n - 1) as nat);
    }
}

/// Each step decrements strictly: the next value is one less, except that 0
/// is followed by 15.
pub proof fn lemma_strict_decrement(start: int, n: nat)
    requires
        is_pattern(start),
    ensures
        spec_nth(start, n) > 0 ==> spec_nth(start, n + 1) == spec_nth(start, n) - 1,
        spec_nth(start, n) == 0 ==> spec_nth(start, n + 1) == 15,
{
}

/// After exactly 16 steps the value is back where it started, and not before.
pub proof fn lemma_period(start: int)
    requires
        is_pattern(start),
    ensures
        spec_nth(start, 16) == start,
        forall|n: nat| 0 < n < 16 ==> spec_nth(start, n) != start,
{
    lemma_nth_closed_form(start, 16);
    assert forall|n: nat| 0 < n < 16 implies spec_nth(start, n) != start by {
        lemma_nth_closed_form(start, n);
    }
}

/// Sixteen steps further on, from any point of the cycle, the value is the
/// same.
pub proof fn lemma_periodic(start: int, n: nat)
    requires
        is_pattern(start),
    ensures
        spec_nth(start, n + 16) == spec_nth(start, n),
{
    lemma_nth_closed_form(start, n);
    lemma_nth_closed_form(start, n + 16);
}

/// From the start value the cycle runs 15, 14, ..., 1, 0.
pub proof fn lemma_first_cycle(n: nat)
    requires
        1 <= n <= 16,
    ensures
        spec_nth(PATTERN_START as int, n) == 16 - n,
{
    lemma_nth_closed_form(PATTERN_START as int, n);
}

} // verus!
