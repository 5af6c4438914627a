//! The process-wide job registry as the scheduler sees it: for each job its
//! priority, staleness, cost factor, queue of pending unit seeds and the
//! limiter that bounds how many units may be queued or in flight.
use vstd::prelude::*;

verus! {

/// One submitted job, shared by every connection.
pub struct RegistryJob {
    pub id: u64,
    /// Higher is more eligible; a connection skips jobs below its threshold.
    pub priority: i64,
    /// Set once the job has been asked for more work and not yet replenished.
    pub stale: bool,
    /// Factor by which a unit's cost is charged to the job's energy.
    pub cost_weight: u32,
    /// Seeds of the pending work units, oldest first.
    pub queue: Vec<u64>,
    /// Slots of the limiter that are free for new units.
    pub free_slots: u64,
    /// The limiter's bound.
    pub capacity: u64,
}

impl RegistryJob {
    /// Every queued unit holds one slot of the limiter.
    pub open spec fn wf(&self) -> bool {
        self.free_slots + self.queue@.len() == self.capacity
    }

    /// A job with no pending units, all of its `capacity` slots free.
    pub fn new(id: u64, priority: i64, cost_weight: u32, capacity: u64) -> (r: RegistryJob)
        ensures
            r.wf(),
            r.id == id,
            r.priority == priority,
            !r.stale,
            r.cost_weight == cost_weight,
            r.queue@ == Seq::<u64>::empty(),
            r.free_slots == capacity,
            r.capacity == capacity,
    {
        RegistryJob {
            id,
            priority,
            stale: false,
            cost_weight,
            queue: Vec::new(),
            free_slots: capacity,
            capacity,
        }
    }

    /// Queues a unit with the given seed if the limiter has a free slot, which
    /// it takes; returns whether the unit was queued.
    pub fn push_work(&mut self, seed: u64) -> (queued: bool)
        requires
            old(self).wf(),
        ensures
            final(self).wf(),
            queued == (old(self).free_slots > 0),
            queued ==> final(self).queue@ == old(self).queue@.push(seed) && final(self).free_slots
                == old(self).free_slots - 1,
            !queued ==> final(self).queue@ == old(self).queue@ && final(self).free_slots
                == old(self).free_slots,
            final(self).id == old(self).id,
            final(self).priority == old(self).priority,
            final(self).stale == old(self).stale,
            final(self).cost_weight == old(self).cost_weight,
            final(self).capacity == old(self).capacity,
    {
        if self.free_slots == 0 {
            return false;
        }
        self.queue.push(seed);
        self.free_slots = self.free_slots - 1;
        true
    }
}

impl RegistryJob {
    /// `b` is `a` with its oldest unit popped and that unit's limiter slot freed.
    pub open spec fn unit_taken(a: RegistryJob, b: RegistryJob) -> bool {
        &&& b.id == a.id
        &&& b.priority == a.priority
        &&& b.stale == a.stale
        &&& b.cost_weight == a.cost_weight
        &&& b.capacity == a.capacity
        &&& b.queue@ == a.queue@.drop_first()
        &&& b.free_slots == a.free_slots + 1
    }

    /// `b` is `a` marked stale, nothing else changed.
    pub open spec fn marked_stale(a: RegistryJob, b: RegistryJob) -> bool {
        &&& b.id == a.id
        &&& b.priority == a.priority
        &&& b.stale
        &&& b.cost_weight == a.cost_weight
        &&& b.capacity == a.capacity
        &&& b.queue@ == a.queue@
        &&& b.free_slots == a.free_slots
    }

    /// Pops the oldest pending unit and frees its limiter slot; with no unit
    /// pending, marks the job stale instead and returns `None`.
    pub fn take_unit(&mut self) -> (r: Option<u64>)
        requires
            old(self).wf(),
        ensures
            final(self).wf(),
            r is None <==> old(self).queue@.len() == 0,
            r is None ==> RegistryJob::marked_stale(*old(self), *final(self)),
            r matches Some(seed) ==> seed == old(self).queue@[0] && RegistryJob::unit_taken(
                *old(self),
                *final(self),
            ),
    {
        if self.queue.len() == 0 {
            self.stale = true;
            return None;
        }
        let seed = self.queue.remove(0);
        self.free_slots = self.free_slots + 1;
        Some(seed)
    }
}

/// All submitted jobs, each id at most once.
pub struct Registry {
    pub jobs: Vec<RegistryJob>,
}

impl Registry {
    pub open spec fn wf(&self) -> bool {
        &&& forall|i: int, j: int|
            0 <= i < self.jobs@.len() && 0 <= j < self.jobs@.len() && #[trigger] self.jobs@[i].id
                == #[trigger] self.jobs@[j].id ==> i == j
        &&& forall|i: int| 0 <= i < self.jobs@.len() ==> (#[trigger] self.jobs@[i]).wf()
    }

    /// Whether a job with this id is registered.
    pub open spec fn has(&self, id: u64) -> bool {
        exists|k: int| 0 <= k < self.jobs@.len() && (#[trigger] self.jobs@[k]).id == id
    }

    /// An empty registry.
    pub fn new() -> (r: Registry)
        ensures
            r.wf(),
            r.jobs@.len() == 0,
    {
        Registry { jobs: Vec::new() }
    }

    /// Position of the job with this id, if it is registered.
    pub fn index_of(&self, id: u64) -> (r: Option<usize>)
        requires
            self.wf(),
        ensures
            r is None <==> !self.has(id),
            r matches Some(k) ==> k < self.jobs@.len() && self.jobs@[k as int].id == id,
    {
        let mut k: usize = 0;
        while k < self.jobs.len()
            invariant
                k <= self.jobs@.len(),
                forall|j: int| 0 <= j < k ==> (#[trigger] self.jobs@[j]).id != id,
            decreases self.jobs@.len() - k,
        {
            if self.jobs[k].id == id {
                return Some(k);
            }
            k = k + 1;
        }
        None
    }

    /// `b` is `a` with the job at `k` changed as `changed` says and every other job kept.
    pub open spec fn only_job_changed(a: Registry, b: Registry, k: int) -> bool {
        &&& b.jobs@.len() == a.jobs@.len()
        &&& forall|j: int| 0 <= j < a.jobs@.len() && j != k ==> b.jobs@[j] == a.jobs@[j]
    }

    /// Takes a unit from the job at position `k`, as `RegistryJob::take_unit` does.
    pub fn take_unit(&mut self, k: usize) -> (r: Option<u64>)
        requires
            old(self).wf(),
            k < old(self).jobs@.len(),
        ensures
            final(self).wf(),
            Registry::only_job_changed(*old(self), *final(self), k as int),
            r is None <==> old(self).jobs@[k as int].queue@.len() == 0,
            r is None ==> RegistryJob::marked_stale(
                old(self).jobs@[k as int],
                final(self).jobs@[k as int],
            ),
            r matches Some(seed) ==> seed == old(self).jobs@[k as int].queue@[0]
                && RegistryJob::unit_taken(old(self).jobs@[k as int], final(self).jobs@[k as int]),
    {
        let ghost before = self.jobs@;
        let mut job = self.jobs.remove(k);
        let r = job.take_unit();
        self.jobs.insert(k, job);
        assert(forall|j: int| 0 <= j < before.len() && j != k ==> #[trigger] self.jobs@[j] == before[j]);
        assert(forall|j: int| 0 <= j < before.len() ==> #[trigger] self.jobs@[j].id == before[j].id);
        r
    }

    /// Registers a job; refused (returning `false`, nothing changed) when its
    /// id is already registered.
    pub fn add_job(&mut self, job: RegistryJob) -> (added: bool)
        requires
            old(self).wf(),
            job.wf(),
        ensures
            final(self).wf(),
            added == !old(self).has(job.id),
            added ==> final(self).jobs@ == old(self).jobs@.push(job),
            !added ==> final(self).jobs@ == old(self).jobs@,
    {
        match self.index_of(job.id) {
            Some(_) => false,
            None => {
                self.jobs.push(job);
                true
            },
        }
    }

    /// Removes the job with this id; returns whether it was registered.
    pub fn remove_job(&mut self, id: u64) -> (removed: bool)
        requires
            old(self).wf(),
        ensures
            final(self).wf(),
            removed == old(self).has(id),
            !final(self).has(id),
            removed ==> exists|k: int|
                0 <= k < old(self).jobs@.len() && old(self).jobs@[k].id == id && final(self).jobs@
                    == old(self).jobs@.remove(k),
            !removed ==> final(self).jobs@ == old(self).jobs@,
    {
        match self.index_of(id) {
            None => false,
            Some(k) => {
                let ghost before = self.jobs@;
                self.jobs.remove(k);
                assert(forall|j: int|
                    0 <= j < self.jobs@.len() ==> #[trigger] self.jobs@[j] == before[if j < k {
                        j
                    } else {
                        j + 1
                    }]);
                true
            },
        }
    }
}

} // verus!
