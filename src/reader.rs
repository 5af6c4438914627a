//! What an inbound update from the worker does to the connection's records.
use vstd::prelude::*;

use crate::connection::{ConnEntry, ConnectionJob, ConnectionState, JobState};
use crate::energy::{correct, corrected};
use crate::registry::Registry;

verus! {

/// What the worker reports of a job.
#[derive(Clone, Copy, PartialEq, Eq, Structural, Debug)]
pub enum UpdateKind {
    /// The job loaded.
    InitDone,
    /// The job failed to load.
    InitFailed,
    /// A unit's result; no change of state.
    Result,
    /// The worker gave the job up.
    Disconnect,
}

/// What the caller does once the locks are released.
#[derive(Clone, Copy, PartialEq, Eq, Structural, Debug)]
pub struct UpdateOutcome {
    /// Forward the update, tagged with the worker's identity, to the job's owner.
    pub forward: bool,
    /// The job has just become loaded on this connection: log that event.
    pub newly_loaded: bool,
}

/// The state a record moves to on an update of this kind.
pub open spec fn next_state(state: JobState, kind: UpdateKind) -> JobState {
    match kind {
        UpdateKind::InitDone => JobState::Loaded,
        UpdateKind::InitFailed => JobState::Failed,
        UpdateKind::Disconnect => JobState::Failed,
        UpdateKind::Result => state,
    }
}

/// An update applies where the connection still holds a record of the job
/// and the job is still registered; any other update is ignored.
pub open spec fn update_applies(c: ConnectionState, r: Registry, id: u64) -> bool {
    c.has(id) && r.has(id)
}

/// Applies an update on job `id` that reports `time_cost_ms` of measured cost:
/// the estimate debited when the unit went out is taken back and the measured
/// cost, times the job's cost factor, charged instead; the record's state moves
/// as `next_state` says.
pub fn apply_update(
    conn: &mut ConnectionState,
    reg: &Registry,
    id: u64,
    time_cost_ms: u32,
    kind: UpdateKind,
) -> (o: UpdateOutcome)
    requires
        old(conn).wf(),
        reg.wf(),
    ensures
        final(conn).wf(),
        final(conn).min_priority == old(conn).min_priority,
        o.forward == update_applies(*old(conn), *reg, id),
        o.newly_loaded == (update_applies(*old(conn), *reg, id) && kind == UpdateKind::InitDone),
        !update_applies(*old(conn), *reg, id) ==> *final(conn) == *old(conn),
        update_applies(*old(conn), *reg, id) ==> exists|i: int, k: int|
            0 <= i < old(conn).jobs@.len() && 0 <= k < reg.jobs@.len() && (#[trigger] old(
                conn,
            ).jobs@[i]).id == id && (#[trigger] reg.jobs@[k]).id == id && final(conn).jobs@
                == old(conn).jobs@.update(
                i,
                ConnEntry {
                    id,
                    job: ConnectionJob {
                        state: next_state(old(conn).jobs@[i].job.state, kind),
                        energy: corrected(
                            old(conn).jobs@[i].job.energy as int,
                            reg.jobs@[k].cost_weight as int,
                            time_cost_ms as int,
                        ) as i128,
                    },
                },
            ),
{
    let i = match conn.index_of(id) {
        None => {
            return UpdateOutcome { forward: false, newly_loaded: false };
        },
        Some(i) => i,
    };
    let k = match reg.index_of(id) {
        None => {
            return UpdateOutcome { forward: false, newly_loaded: false };
        },
        Some(k) => k,
    };
    let ghost before = conn.jobs@;
    let mut e = conn.jobs[i];
    e.job.energy = correct(e.job.energy, reg.jobs[k].cost_weight, time_cost_ms);
    e.job.state = match kind {
        UpdateKind::InitDone => JobState::Loaded,
        UpdateKind::InitFailed => JobState::Failed,
        UpdateKind::Disconnect => JobState::Failed,
        UpdateKind::Result => e.job.state,
    };
    conn.jobs.set(i, e);
    assert(forall|j: int| 0 <= j < before.len() ==> #[trigger] conn.jobs@[j].id == before[j].id);
    assert(conn.jobs@ =~= before.update(
        i as int,
        ConnEntry {
            id,
            job: ConnectionJob {
                state: next_state(before[i as int].job.state, kind),
                energy: corrected(
                    before[i as int].job.energy as int,
                    reg.jobs@[k as int].cost_weight as int,
                    time_cost_ms as int,
                ) as i128,
            },
        },
    ));
    UpdateOutcome { forward: true, newly_loaded: kind == UpdateKind::InitDone }
}

} // verus!
