//! Properties of the scheduler that hold over every decision it makes.
use vstd::prelude::*;

use crate::connection::{ConnectionState, JobState, energies, is_min};
use crate::registry::Registry;
use crate::scheduler::{Step, charged, eligible, eligible_via, selected, step_post};

verus! {

/// A unit is handed out only for a job that is loaded on the connection,
/// registered, not stale, of priority at least the connection's threshold and
/// with a pending unit, whose oldest seed is the one handed out.
pub proof fn lemma_work_only_for_eligible(
    c0: ConnectionState,
    r0: Registry,
    c1: ConnectionState,
    r1: Registry,
    id: u64,
    seed: u64,
)
    requires
        step_post(c0, r0, c1, r1, Step::Work(id, seed)),
    ensures
        exists|i: int, k: int|
            #![trigger c0.jobs@[i], r0.jobs@[k]]
            0 <= i < c0.jobs@.len() && 0 <= k < r0.jobs@.len() && c0.jobs@[i].id == id
                && c0.jobs@[i].job.state == JobState::Loaded && r0.jobs@[k].id == id
                && !r0.jobs@[k].stale && r0.jobs@[k].priority >= c0.min_priority
                && r0.jobs@[k].queue@.len() > 0 && seed == r0.jobs@[k].queue@[0],
{
    let (i, k) = choose|i: int, k: int|
        #[trigger] selected(c0, r0, i, k) && c0.jobs@[i].id == id && r0.jobs@[k].queue@.len() > 0
            && seed == r0.jobs@[k].queue@[0];
    assert(c0.jobs@[i].id == id && r0.jobs@[k].id == id);
}

/// Right after a unit is handed out, the least energy on the connection is exactly zero.
pub proof fn lemma_least_energy_zero_after_work(
    c0: ConnectionState,
    r0: Registry,
    c1: ConnectionState,
    r1: Registry,
    id: u64,
    seed: u64,
)
    requires
        step_post(c0, r0, c1, r1, Step::Work(id, seed)),
    ensures
        is_min(energies(c1.jobs@), 0),
{
    let (i, k) = choose|i: int, k: int|
        #[trigger] selected(c0, r0, i, k) && c0.jobs@[i].id == id && r0.jobs@[k].queue@.len() > 0
            && seed == r0.jobs@[k].queue@[0] && crate::scheduler::renormalized(
            c0.jobs@,
            c1.jobs@,
            i,
            r0.jobs@[k].cost_weight as int,
        );
    let ch = charged(c0.jobs@, i, r0.jobs@[k].cost_weight as int);
    let m = choose|m: int|
        #[trigger] is_min(ch, m) && forall|j: int|
            0 <= j < c1.jobs@.len() ==> (#[trigger] c1.jobs@[j]).id == c0.jobs@[j].id
                && c1.jobs@[j].job.state == c0.jobs@[j].job.state && c1.jobs@[j].job.energy
                == crate::energy::clamp(ch[j] - m);
    let e = energies(c1.jobs@);
    assert forall|j: int| 0 <= j < e.len() implies 0 <= #[trigger] e[j] by {
        assert(m <= ch[j]);
        assert(c1.jobs@[j].job.energy == crate::energy::clamp(ch[j] - m));
    }
    let j0 = choose|j: int| 0 <= j < ch.len() && #[trigger] ch[j] == m;
    assert(c1.jobs@[j0].job.energy == crate::energy::clamp(ch[j0] - m));
    assert(e[j0] == 0);
}

/// An eligible job that has had no service yet (energy zero) is never passed
/// over for a job with positive energy: the job that gets the unit has energy
/// at most zero.
pub proof fn lemma_fresh_job_not_passed_over(
    c0: ConnectionState,
    r0: Registry,
    c1: ConnectionState,
    r1: Registry,
    id: u64,
    seed: u64,
    fresh: int,
)
    requires
        step_post(c0, r0, c1, r1, Step::Work(id, seed)),
        eligible(c0, r0, fresh),
        c0.jobs@[fresh].job.energy == 0,
    ensures
        exists|i: int|
            0 <= i < c0.jobs@.len() && (#[trigger] c0.jobs@[i]).id == id && c0.jobs@[i].job.energy
                <= 0,
{
    let (i, k) = choose|i: int, k: int|
        #[trigger] selected(c0, r0, i, k) && c0.jobs@[i].id == id && r0.jobs@[k].queue@.len() > 0
            && seed == r0.jobs@[k].queue@[0];
    assert(c0.jobs@[i].job.energy <= c0.jobs@[fresh].job.energy);
}

/// Where a record mirrors a job that is no longer registered, the next
/// decision hands out no unit of it and does not ask it for work; where no
/// admission comes first, the decision is a removal, and a removal of that id
/// leaves no record of it.
pub proof fn lemma_vanished_job_reaped(
    c0: ConnectionState,
    r0: Registry,
    c1: ConnectionState,
    r1: Registry,
    s: Step,
    id: u64,
)
    requires
        c0.wf(),
        step_post(c0, r0, c1, r1, s),
        c0.has(id),
        !r0.has(id),
    ensures
        s != Step::NeedWork(id),
        forall|seed: u64| s != Step::Work(id, seed),
        !crate::scheduler::admission_pending(c0, r0) ==> s is Remove,
        s == Step::Remove(id) ==> !c1.has(id),
{
    let i0 = choose|i: int| 0 <= i < c0.jobs@.len() && (#[trigger] c0.jobs@[i]).id == id;
    assert(crate::scheduler::reap_pending(c0, r0));
    match s {
        Step::Work(w, seed) => {
            if w == id {
                let (i, k) = choose|i: int, k: int|
                    #[trigger] selected(c0, r0, i, k) && c0.jobs@[i].id == id
                        && r0.jobs@[k].queue@.len() > 0 && seed == r0.jobs@[k].queue@[0];
                assert(r0.jobs@[k].id == id);
            }
        },
        Step::NeedWork(w) => {
            if w == id {
                let (i, k) = choose|i: int, k: int|
                    #[trigger] selected(c0, r0, i, k) && c0.jobs@[i].id == id
                        && r0.jobs@[k].queue@.len() == 0 && Registry::only_job_changed(r0, r1, k)
                        && crate::registry::RegistryJob::marked_stale(r0.jobs@[k], r1.jobs@[k]);
                assert(r0.jobs@[k].id == id);
            }
        },
        Step::Add(a) => {
            let k = choose|k: int| 0 <= k < r0.jobs@.len() && (#[trigger] r0.jobs@[k]).id == a;
            assert(!c0.has(r0.jobs@[k].id));
            assert(crate::scheduler::admission_pending(c0, r0));
        },
        Step::Remove(w) => {
            if w == id {
                let i = choose|i: int|
                    0 <= i < c0.jobs@.len() && (#[trigger] c0.jobs@[i]).id == id && c1.jobs@
                        == c0.jobs@.remove(i);
                assert forall|j: int| 0 <= j < c1.jobs@.len() implies (#[trigger] c1.jobs@[j]).id
                    != id by {
                    if j < i {
                        assert(c1.jobs@[j] == c0.jobs@[j]);
                    } else {
                        assert(c1.jobs@[j] == c0.jobs@[j + 1]);
                    }
                }
            }
        },
        Step::Wait => {},
    }
}

/// Once a job is neither registered nor recorded on the connection, no later
/// decision removes it again, hands out a unit of it, or records it anew.
pub proof fn lemma_removed_job_stays_gone(
    c0: ConnectionState,
    r0: Registry,
    c1: ConnectionState,
    r1: Registry,
    s: Step,
    id: u64,
)
    requires
        step_post(c0, r0, c1, r1, s),
        !c0.has(id),
        !r0.has(id),
    ensures
        s != Step::Remove(id),
        forall|seed: u64| s != Step::Work(id, seed),
        !c1.has(id),
{
    match s {
        Step::Work(w, seed) => {
            let (i, k) = choose|i: int, k: int|
                #[trigger] selected(c0, r0, i, k) && c0.jobs@[i].id == w
                    && r0.jobs@[k].queue@.len() > 0 && seed == r0.jobs@[k].queue@[0]
                    && crate::scheduler::renormalized(
                    c0.jobs@,
                    c1.jobs@,
                    i,
                    r0.jobs@[k].cost_weight as int,
                );
            assert(c0.jobs@[i].id == w);
            if c1.has(id) {
                let j = choose|j: int| 0 <= j < c1.jobs@.len() && (#[trigger] c1.jobs@[j]).id == id;
                assert(c0.jobs@[j].id == id);
            }
        },
        Step::Add(a) => {
            if c1.has(id) {
                let j = choose|j: int| 0 <= j < c1.jobs@.len() && (#[trigger] c1.jobs@[j]).id == id;
                if j < c0.jobs@.len() {
                    assert(c0.jobs@[j] == c1.jobs@[j]);
                }
            }
        },
        Step::Remove(w) => {
            let i = choose|i: int|
                0 <= i < c0.jobs@.len() && (#[trigger] c0.jobs@[i]).id == w && c1.jobs@
                    == c0.jobs@.remove(i);
            if c1.has(id) {
                let j = choose|j: int| 0 <= j < c1.jobs@.len() && (#[trigger] c1.jobs@[j]).id == id;
                if j < i {
                    assert(c1.jobs@[j] == c0.jobs@[j]);
                } else {
                    assert(c1.jobs@[j] == c0.jobs@[j + 1]);
                }
            }
        },
        _ => {},
    }
}

} // verus!
