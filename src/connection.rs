//! The state one worker connection keeps of the jobs it has been told about.
use vstd::prelude::*;

use crate::energy::{clamp, saturating_sub};

verus! {

/// The energies of the records, in order.
pub open spec fn energies(jobs: Seq<ConnEntry>) -> Seq<int> {
    Seq::new(jobs.len(), |j: int| jobs[j].job.energy as int)
}

/// `m` is the least element of `s`.
pub open spec fn is_min(s: Seq<int>, m: int) -> bool {
    &&& forall|j: int| 0 <= j < s.len() ==> m <= #[trigger] s[j]
    &&& exists|j: int| 0 <= j < s.len() && #[trigger] s[j] == m
}

/// Where a job stands on one connection.
#[derive(Clone, Copy, PartialEq, Eq, Structural, Debug)]
pub enum JobState {
    /// Assigned to the worker, which has not yet reported whether it loaded.
    Loading,
    /// Loaded by the worker; eligible for work units.
    Loaded,
    /// The worker failed to load it, or reported it gone.
    Failed,
}

/// A connection's record of one job.
#[derive(Clone, Copy, Debug)]
pub struct ConnectionJob {
    pub state: JobState,
    /// Accumulated cost debt; lower is more deserving of the next unit.
    pub energy: i128,
}

/// A job id together with the connection's record of it.
#[derive(Clone, Copy, Debug)]
pub struct ConnEntry {
    pub id: u64,
    pub job: ConnectionJob,
}

/// One connection's minimum-priority threshold and its jobs, each id at most once.
pub struct ConnectionState {
    pub min_priority: i64,
    pub jobs: Vec<ConnEntry>,
}

impl ConnectionState {
    pub open spec fn wf(&self) -> bool {
        forall|i: int, j: int|
            0 <= i < self.jobs@.len() && 0 <= j < self.jobs@.len() && #[trigger] self.jobs@[i].id
                == #[trigger] self.jobs@[j].id ==> i == j
    }

    /// Whether this connection holds a record of the job with this id.
    pub open spec fn has(&self, id: u64) -> bool {
        exists|i: int| 0 <= i < self.jobs@.len() && (#[trigger] self.jobs@[i]).id == id
    }

    /// A connection that knows of no job yet.
    pub fn new(min_priority: i64) -> (r: ConnectionState)
        ensures
            r.wf(),
            r.min_priority == min_priority,
            r.jobs@.len() == 0,
    {
        ConnectionState { min_priority, jobs: Vec::new() }
    }

    /// Position of the record of the job with this id, if there is one.
    pub fn index_of(&self, id: u64) -> (r: Option<usize>)
        requires
            self.wf(),
        ensures
            r is None <==> !self.has(id),
            r matches Some(i) ==> i < self.jobs@.len() && self.jobs@[i as int].id == id,
    {
        let mut i: usize = 0;
        while i < self.jobs.len()
            invariant
                i <= self.jobs@.len(),
                forall|j: int| 0 <= j < i ==> (#[trigger] self.jobs@[j]).id != id,
            decreases self.jobs@.len() - i,
        {
            if self.jobs[i].id == id {
                return Some(i);
            }
            i = i + 1;
        }
        None
    }

    /// The least energy among the records.
    pub fn min_energy(&self) -> (m: i128)
        requires
            self.jobs@.len() > 0,
        ensures
            is_min(energies(self.jobs@), m as int),
    {
        let mut m: i128 = self.jobs[0].job.energy;
        let mut at: usize = 0;
        let mut i: usize = 1;
        while i < self.jobs.len()
            invariant
                1 <= i <= self.jobs@.len(),
                at < i,
                self.jobs@[at as int].job.energy == m,
                forall|j: int| 0 <= j < i ==> m <= (#[trigger] self.jobs@[j]).job.energy,
            decreases self.jobs@.len() - i,
        {
            if self.jobs[i].job.energy < m {
                m = self.jobs[i].job.energy;
                at = i;
            }
            i = i + 1;
        }
        assert(energies(self.jobs@)[at as int] == m);
        m
    }

    /// Subtracts `m` from every record's energy, saturating.
    pub fn shift_energies(&mut self, m: i128)
        requires
            old(self).wf(),
        ensures
            final(self).wf(),
            final(self).min_priority == old(self).min_priority,
            final(self).jobs@.len() == old(self).jobs@.len(),
            forall|j: int|
                0 <= j < old(self).jobs@.len() ==> (#[trigger] final(self).jobs@[j]).id == old(
                    self,
                ).jobs@[j].id && final(self).jobs@[j].job.state == old(self).jobs@[j].job.state
                    && final(self).jobs@[j].job.energy == clamp(old(self).jobs@[j].job.energy - m),
    {
        let ghost before = self.jobs@;
        let mut i: usize = 0;
        while i < self.jobs.len()
            invariant
                i <= self.jobs@.len(),
                self.jobs@.len() == before.len(),
                self.min_priority == old(self).min_priority,
                before == old(self).jobs@,
                forall|j: int|
                    0 <= j < before.len() ==> (#[trigger] self.jobs@[j]).id == before[j].id
                        && self.jobs@[j].job.state == before[j].job.state,
                forall|j: int|
                    0 <= j < i ==> (#[trigger] self.jobs@[j]).job.energy == clamp(
                        before[j].job.energy - m,
                    ),
                forall|j: int| i <= j < before.len() ==> #[trigger] self.jobs@[j] == before[j],
            decreases self.jobs@.len() - i,
        {
            let mut e = self.jobs[i];
            e.job.energy = saturating_sub(e.job.energy, m);
            self.jobs.set(i, e);
            i = i + 1;
        }
    }
}

} // verus!
