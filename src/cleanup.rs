//! What a connection owes the owners of its jobs when it ends.
use vstd::prelude::*;

use crate::connection::{ConnectionState, JobState};
use crate::registry::Registry;

verus! {

/// The job with this id is loaded on the connection and still registered:
/// its owner must learn that the worker went away.
pub open spec fn owed_disconnect(c: ConnectionState, r: Registry, id: u64) -> bool {
    exists|i: int|
        0 <= i < c.jobs@.len() && (#[trigger] c.jobs@[i]).id == id && c.jobs@[i].job.state
            == JobState::Loaded && r.has(id)
}

/// The ids of the jobs whose owners get a disconnect update when the
/// connection ends: each job loaded on it and still registered, once.
pub fn disconnect_targets(conn: &ConnectionState, reg: &Registry) -> (ids: Vec<u64>)
    requires
        conn.wf(),
        reg.wf(),
    ensures
        ids@.no_duplicates(),
        forall|id: u64| ids@.contains(id) <==> owed_disconnect(*conn, *reg, id),
{
    let mut ids: Vec<u64> = Vec::new();
    let mut i: usize = 0;
    while i < conn.jobs.len()
        invariant
            conn.wf(),
            reg.wf(),
            i <= conn.jobs@.len(),
            ids@.no_duplicates(),
            forall|x: int|
                #![trigger ids@[x]]
                0 <= x < ids@.len() ==> exists|j: int|
                    0 <= j < i && (#[trigger] conn.jobs@[j]).id == ids@[x],
            forall|id: u64|
                ids@.contains(id) <==> exists|j: int|
                    0 <= j < i && (#[trigger] conn.jobs@[j]).id == id && conn.jobs@[j].job.state
                        == JobState::Loaded && reg.has(id),
        decreases conn.jobs@.len() - i,
    {
        let e = conn.jobs[i];
        if e.job.state == JobState::Loaded && reg.index_of(e.id).is_some() {
            let ghost before = ids@;
            assert(!before.contains(e.id)) by {
                if before.contains(e.id) {
                    let x = choose|x: int| 0 <= x < before.len() && before[x] == e.id;
                    assert(exists|j: int| 0 <= j < i && (#[trigger] conn.jobs@[j]).id == before[x]);
                }
            }
            ids.push(e.id);
            assert(ids@ == before.push(e.id));
            assert forall|id: u64| ids@.contains(id) <==> exists|j: int|
                0 <= j < i + 1 && (#[trigger] conn.jobs@[j]).id == id && conn.jobs@[j].job.state
                    == JobState::Loaded && reg.has(id) by {
                if id == e.id {
                    assert(ids@[before.len() as int] == id);
                    assert(conn.jobs@[i as int].id == id);
                } else {
                    if ids@.contains(id) {
                        let x = choose|x: int| 0 <= x < ids@.len() && ids@[x] == id;
                        assert(x < before.len());
                        assert(before[x] == id);
                        assert(before.contains(id));
                    }
                    if before.contains(id) {
                        let x = choose|x: int| 0 <= x < before.len() && before[x] == id;
                        assert(ids@[x] == id);
                    }
                    assert(conn.jobs@[i as int].id != id);
                }
            }
            assert forall|x: int| #![trigger ids@[x]] 0 <= x < ids@.len() implies exists|j: int|
                0 <= j < i + 1 && (#[trigger] conn.jobs@[j]).id == ids@[x] by {
                if x < before.len() {
                    assert(ids@[x] == before[x]);
                } else {
                    assert(conn.jobs@[i as int].id == ids@[x]);
                }
            }
        } else {
            proof {
                if e.job.state == JobState::Loaded {
                    assert(!reg.has(e.id));
                }
            }
        }
        i = i + 1;
    }
    ids
}

} // verus!
