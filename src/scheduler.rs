//! Fair-share choice of what a connection does next.
//!
//! `choose_work` makes one decision under the registry and connection locks
//! and never waits: where nothing can be handed out it says so, and the
//! caller waits for the registry's new-work signal and asks again.
use vstd::prelude::*;

use crate::connection::{ConnEntry, ConnectionJob, ConnectionState, JobState, energies, is_min};
use crate::energy::{clamp, debit, debited};
use crate::registry::{Registry, RegistryJob};

verus! {

/// What the connection does next.
#[derive(Clone, Copy, PartialEq, Eq, Structural, Debug)]
pub enum Step {
    /// Assign the job with this id to the worker.
    Add(u64),
    /// Hand out the unit with the given seed (second) of the job (first).
    Work(u64, u64),
    /// Tell the worker to drop the job with this id.
    Remove(u64),
    /// The chosen job is out of units and is now marked stale: deliver a
    /// "need work" notification to its owner and decide again at once.
    NeedWork(u64),
    /// Nothing can be handed out: wait for the registry's new-work signal
    /// (registered before the locks are released) and decide again.
    Wait,
}

/// Some registered job has no record on this connection yet.
pub open spec fn admission_pending(c: ConnectionState, r: Registry) -> bool {
    exists|k: int| 0 <= k < r.jobs@.len() && !c.has(#[trigger] r.jobs@[k].id)
}

/// Some record on this connection mirrors a job that is no longer registered.
pub open spec fn reap_pending(c: ConnectionState, r: Registry) -> bool {
    exists|i: int| 0 <= i < c.jobs@.len() && !r.has(#[trigger] c.jobs@[i].id)
}

/// The record at `i` may get a unit, by way of the registered job at `k`:
/// loaded, the job not stale, its priority at least the connection's threshold.
pub open spec fn eligible_via(c: ConnectionState, r: Registry, i: int, k: int) -> bool {
    &&& 0 <= i < c.jobs@.len()
    &&& 0 <= k < r.jobs@.len()
    &&& r.jobs@[k].id == c.jobs@[i].id
    &&& c.jobs@[i].job.state == JobState::Loaded
    &&& !r.jobs@[k].stale
    &&& r.jobs@[k].priority >= c.min_priority
}

/// The record at `i` may get a unit.
pub open spec fn eligible(c: ConnectionState, r: Registry, i: int) -> bool {
    exists|k: int| #[trigger] eligible_via(c, r, i, k)
}

/// The record at `i` is eligible by way of `k`, with the least energy of all eligible records.
pub open spec fn selected(c: ConnectionState, r: Registry, i: int, k: int) -> bool {
    &&& eligible_via(c, r, i, k)
    &&& forall|j: int|
        #[trigger] eligible(c, r, j) ==> c.jobs@[i].job.energy <= c.jobs@[j].job.energy
}

/// Energies of `jobs` after the record at `i` is debited for one unit at cost factor `weight`.
pub open spec fn charged(jobs: Seq<ConnEntry>, i: int, weight: int) -> Seq<int> {
    Seq::new(
        jobs.len(),
        |j: int|
            if j == i {
                debited(jobs[j].job.energy as int, weight)
            } else {
                jobs[j].job.energy as int
            },
    )
}

/// `after` is `before` with the record at `i` debited and then every energy
/// lowered by the least of the debited energies.
pub open spec fn renormalized(before: Seq<ConnEntry>, after: Seq<ConnEntry>, i: int, weight: int) -> bool {
    &&& after.len() == before.len()
    &&& exists|m: int|
        #[trigger] is_min(charged(before, i, weight), m) && forall|j: int|
            0 <= j < after.len() ==> (#[trigger] after[j]).id == before[j].id
                && after[j].job.state == before[j].job.state && after[j].job.energy == clamp(
                charged(before, i, weight)[j] - m,
            )
}

/// What one decision did: `c0`, `r0` before it, `c1`, `r1` after, `s` its result.
pub open spec fn step_post(
    c0: ConnectionState,
    r0: Registry,
    c1: ConnectionState,
    r1: Registry,
    s: Step,
) -> bool {
    &&& c1.min_priority == c0.min_priority
    &&& match s {
        Step::Add(id) => {
            &&& !c0.has(id)
            &&& r0.has(id)
            &&& c1.jobs@ == c0.jobs@.push(
                ConnEntry { id, job: ConnectionJob { state: JobState::Loading, energy: 0 } },
            )
            &&& r1 == r0
        },
        Step::Remove(id) => {
            &&& !admission_pending(c0, r0)
            &&& !r0.has(id)
            &&& exists|i: int|
                0 <= i < c0.jobs@.len() && (#[trigger] c0.jobs@[i]).id == id && c1.jobs@
                    == c0.jobs@.remove(i)
            &&& r1 == r0
        },
        Step::Wait => {
            &&& !admission_pending(c0, r0)
            &&& !reap_pending(c0, r0)
            &&& forall|i: int| !#[trigger] eligible(c0, r0, i)
            &&& c1 == c0
            &&& r1 == r0
        },
        Step::NeedWork(id) => {
            &&& !admission_pending(c0, r0)
            &&& !reap_pending(c0, r0)
            &&& exists|i: int, k: int|
                #[trigger] selected(c0, r0, i, k) && c0.jobs@[i].id == id
                    && r0.jobs@[k].queue@.len() == 0 && Registry::only_job_changed(r0, r1, k)
                    && RegistryJob::marked_stale(r0.jobs@[k], r1.jobs@[k])
            &&& c1 == c0
        },
        Step::Work(id, seed) => {
            &&& !admission_pending(c0, r0)
            &&& !reap_pending(c0, r0)
            &&& exists|i: int, k: int|
                #[trigger] selected(c0, r0, i, k) && c0.jobs@[i].id == id
                    && r0.jobs@[k].queue@.len() > 0 && seed == r0.jobs@[k].queue@[0]
                    && Registry::only_job_changed(r0, r1, k) && RegistryJob::unit_taken(
                    r0.jobs@[k],
                    r1.jobs@[k],
                ) && renormalized(c0.jobs@, c1.jobs@, i, r0.jobs@[k].cost_weight as int)
        },
    }
}

/// Decides what the connection does next, in this order: assign a registered
/// job it has no record of; drop a record whose job is no longer registered;
/// otherwise take a unit of the eligible job with the least energy, debit that
/// job's energy by the estimate and renormalize so the least energy is zero.
/// Where the chosen job has no unit, it is marked stale (`NeedWork`); where no
/// job is eligible, nothing changes (`Wait`).
pub fn choose_work(conn: &mut ConnectionState, reg: &mut Registry) -> (s: Step)
    requires
        old(conn).wf(),
        old(reg).wf(),
    ensures
        final(conn).wf(),
        final(reg).wf(),
        step_post(*old(conn), *old(reg), *final(conn), *final(reg), s),
{
    // Admission: any registered job this connection has not been told about.
    let mut k: usize = 0;
    while k < reg.jobs.len()
        invariant
            conn.wf(),
            reg.wf(),
            *conn == *old(conn),
            *reg == *old(reg),
            k <= reg.jobs@.len(),
            forall|j: int| 0 <= j < k ==> conn.has(#[trigger] reg.jobs@[j].id),
        decreases reg.jobs@.len() - k,
    {
        let id = reg.jobs[k].id;
        if conn.index_of(id).is_none() {
            let ghost before = conn.jobs@;
            conn.jobs.push(
                ConnEntry { id, job: ConnectionJob { state: JobState::Loading, energy: 0 } },
            );
            assert(forall|j: int| 0 <= j < before.len() ==> #[trigger] conn.jobs@[j] == before[j]);
            assert(reg.has(id)) by {
                assert(reg.jobs@[k as int].id == id);
            }
            return Step::Add(id);
        }
        k = k + 1;
    }
    assert(!admission_pending(*conn, *reg));

    // Reap and select in one pass over this connection's records.
    let mut best: Option<(usize, usize)> = None;
    let mut i: usize = 0;
    while i < conn.jobs.len()
        invariant
            conn.wf(),
            reg.wf(),
            *conn == *old(conn),
            *reg == *old(reg),
            !admission_pending(*conn, *reg),
            i <= conn.jobs@.len(),
            forall|j: int| 0 <= j < i ==> reg.has(#[trigger] conn.jobs@[j].id),
            best is None ==> forall|j: int| 0 <= j < i ==> !#[trigger] eligible(*conn, *reg, j),
            best matches Some((bi, bk)) ==> bi < i && eligible_via(*conn, *reg, bi as int, bk as int)
                && forall|j: int|
                0 <= j < i && #[trigger] eligible(*conn, *reg, j) ==> conn.jobs@[bi as int].job.energy
                    <= conn.jobs@[j].job.energy,
        decreases conn.jobs@.len() - i,
    {
        let id = conn.jobs[i].id;
        match reg.index_of(id) {
            None => {
                let ghost before = conn.jobs@;
                conn.jobs.remove(i);
                assert(forall|j: int|
                    0 <= j < conn.jobs@.len() ==> #[trigger] conn.jobs@[j] == before[if j < i {
                        j
                    } else {
                        j + 1
                    }]);
                assert(before[i as int].id == id);
                return Step::Remove(id);
            },
            Some(rk) => {
                let e = conn.jobs[i];
                let ok = e.job.state == JobState::Loaded && !reg.jobs[rk].stale
                    && reg.jobs[rk].priority >= conn.min_priority;
                proof {
                    assert(forall|k2: int|
                        0 <= k2 < reg.jobs@.len() && reg.jobs@[k2].id == id ==> k2 == rk);
                    if ok {
                        assert(eligible_via(*conn, *reg, i as int, rk as int));
                    } else {
                        assert(!eligible(*conn, *reg, i as int));
                    }
                }
                if ok {
                    let better = match best {
                        None => true,
                        Some((bi, _)) => e.job.energy < conn.jobs[bi].job.energy,
                    };
                    if better {
                        best = Some((i, rk));
                    }
                }
            },
        }
        i = i + 1;
    }
    assert(!reap_pending(*conn, *reg));

    match best {
        None => {
            assert forall|j: int| !#[trigger] eligible(*conn, *reg, j) by {
                if eligible(*conn, *reg, j) {
                    let kk = choose|kk: int| eligible_via(*conn, *reg, j, kk);
                    assert(eligible_via(*conn, *reg, j, kk));
                }
            }
            Step::Wait
        },
        Some((bi, bk)) => {
            let ghost c0 = *conn;
            let ghost r0 = *reg;
            assert forall|j: int| #[trigger] eligible(c0, r0, j) implies c0.jobs@[bi as int].job.energy
                <= c0.jobs@[j].job.energy by {
                let kk = choose|kk: int| eligible_via(c0, r0, j, kk);
                assert(eligible_via(c0, r0, j, kk));
            }
            assert(selected(c0, r0, bi as int, bk as int));
            let id = conn.jobs[bi].id;
            let weight = reg.jobs[bk].cost_weight;
            match reg.take_unit(bk) {
                None => Step::NeedWork(id),
                Some(seed) => {
                    let mut e = conn.jobs[bi];
                    e.job.energy = debit(e.job.energy, weight);
                    conn.jobs.set(bi, e);
                    assert(conn.wf()) by {
                        assert(forall|j: int|
                            0 <= j < c0.jobs@.len() ==> #[trigger] conn.jobs@[j].id == c0.jobs@[j].id);
                    }
                    assert(energies(conn.jobs@) =~= charged(c0.jobs@, bi as int, weight as int));
                    let m = conn.min_energy();
                    conn.shift_energies(m);
                    assert(is_min(charged(c0.jobs@, bi as int, weight as int), m as int));
                    Step::Work(id, seed)
                },
            }
        },
    }
}

} // verus!
