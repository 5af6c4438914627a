//! Energy arithmetic: the cost debt that orders jobs on one connection.
//!
//! Energies are signed 128-bit integers.  Every update saturates at the
//! bounds of `i128`, so no sequence of updates can overflow; within the
//! bounds every update is exact.
use vstd::prelude::*;

verus! {

/// Fixed per-unit cost estimate, in milliseconds, debited when a unit is handed out
/// and taken back once the measured cost is reported.
pub const TIME_COST_MS_GUESS: u32 = 100;

/// `v` held to the range of `i128`.
pub open spec fn clamp(v: int) -> int {
    if v < i128::MIN {
        i128::MIN as int
    } else if v > i128::MAX {
        i128::MAX as int
    } else {
        v
    }
}

/// Energy after handing out one unit of a job whose cost factor is `weight`.
pub open spec fn debited(energy: int, weight: int) -> int {
    clamp(energy + weight * TIME_COST_MS_GUESS)
}

/// Energy after a report of `time_cost_ms` for a unit that was debited at the estimate.
pub open spec fn corrected(energy: int, weight: int, time_cost_ms: int) -> int {
    clamp(energy - weight * TIME_COST_MS_GUESS + weight * time_cost_ms)
}

/// `a + b`, saturating at the bounds of `i128`.
pub fn saturating_add(a: i128, b: i128) -> (r: i128)
    ensures
        r == clamp(a + b),
{
    match a.checked_add(b) {
        Some(v) => v,
        None => if b > 0 {
            i128::MAX
        } else {
            i128::MIN
        },
    }
}

/// `a - b`, saturating at the bounds of `i128`.
pub fn saturating_sub(a: i128, b: i128) -> (r: i128)
    ensures
        r == clamp(a - b),
{
    match a.checked_sub(b) {
        Some(v) => v,
        None => if b < 0 {
            i128::MAX
        } else {
            i128::MIN
        },
    }
}

/// The weighted cost `weight * time_cost_ms`, exact.
pub fn weighted_cost(weight: u32, time_cost_ms: u32) -> (r: i128)
    ensures
        r == weight * time_cost_ms,
        r >= 0,
{
    proof {
        assert(0 <= weight as int * time_cost_ms as int <= u32::MAX as int * u32::MAX as int)
            by (nonlinear_arith);
    }
    (weight as i128) * (time_cost_ms as i128)
}

/// The debit made when a unit is handed out: `energy + weight * TIME_COST_MS_GUESS`.
pub fn debit(energy: i128, weight: u32) -> (r: i128)
    ensures
        r == debited(energy as int, weight as int),
{
    saturating_add(energy, weighted_cost(weight, TIME_COST_MS_GUESS))
}

/// The reconciliation made when a unit's measured cost arrives: the estimate
/// is taken back and the measured cost applied in its place.
pub fn correct(energy: i128, weight: u32, time_cost_ms: u32) -> (r: i128)
    ensures
        r == corrected(energy as int, weight as int, time_cost_ms as int),
{
    let estimate = weighted_cost(weight, TIME_COST_MS_GUESS);
    let measured = weighted_cost(weight, time_cost_ms);
    saturating_add(energy, measured - estimate)
}

/// One full cycle on a job, a debit at the estimate and then the correction
/// by the measured cost, changes its energy by exactly the weighted measured
/// cost, as long as no intermediate value leaves the range of `i128`.
pub proof fn lemma_select_report_cycle(energy: i128, weight: u32, time_cost_ms: u32)
    requires
        energy + weight * TIME_COST_MS_GUESS <= i128::MAX,
        energy + weight * time_cost_ms <= i128::MAX,
    ensures
        corrected(debited(energy as int, weight as int), weight as int, time_cost_ms as int)
            == energy + weight * time_cost_ms,
{
    assert(0 <= weight as int * time_cost_ms as int) by (nonlinear_arith);
    assert(0 <= weight as int * TIME_COST_MS_GUESS as int) by (nonlinear_arith);
}

} // verus!
