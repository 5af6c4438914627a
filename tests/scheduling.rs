use controller::cleanup::disconnect_targets;
use controller::connection::{ConnectionState, JobState};
use controller::energy::{correct, debit, saturating_add, saturating_sub, weighted_cost};
use controller::reader::{apply_update, UpdateKind, UpdateOutcome};
use controller::registry::{Registry, RegistryJob};
use controller::scheduler::{choose_work, Step};

fn job_with_units(id: u64, priority: i64, cost_weight: u32, seeds: &[u64]) -> RegistryJob {
    let mut job = RegistryJob::new(id, priority, cost_weight, 100);
    for &seed in seeds {
        assert!(job.push_work(seed));
    }
    job
}

fn energy_of(conn: &ConnectionState, id: u64) -> i128 {
    conn.jobs[conn.index_of(id).unwrap()].job.energy
}

fn state_of(conn: &ConnectionState, id: u64) -> JobState {
    conn.jobs[conn.index_of(id).unwrap()].job.state
}

/// Admits every registered job and marks it loaded, as a worker would report.
fn admit_and_load(conn: &mut ConnectionState, reg: &mut Registry) {
    loop {
        let before = conn.jobs.len();
        match choose_work(conn, reg) {
            Step::Add(id) => {
                let o = apply_update(conn, reg, id, 100, UpdateKind::InitDone);
                assert_eq!(o, UpdateOutcome { forward: true, newly_loaded: true });
            }
            _ => panic!("expected an admission"),
        }
        if conn.jobs.len() == reg.jobs.len() && conn.jobs.len() > before {
            break;
        }
    }
}

#[test]
fn two_equal_jobs_each_served_once_before_repeat() {
    let mut reg = Registry::new();
    assert!(reg.add_job(job_with_units(1, 5, 1, &[11])));
    assert!(reg.add_job(job_with_units(2, 5, 1, &[22])));
    let mut conn = ConnectionState::new(0);
    admit_and_load(&mut conn, &mut reg);
    let first = choose_work(&mut conn, &mut reg);
    let second = choose_work(&mut conn, &mut reg);
    let mut ids = Vec::new();
    for s in [first, second] {
        match s {
            Step::Work(id, seed) => {
                assert_eq!(seed, id * 11);
                ids.push(id);
            }
            other => panic!("expected work, got {:?}", other),
        }
    }
    ids.sort();
    assert_eq!(ids, vec![1, 2]);
}

#[test]
fn job_below_threshold_never_gets_work() {
    let mut reg = Registry::new();
    assert!(reg.add_job(job_with_units(1, 1, 1, &[1, 2, 3])));
    assert!(reg.add_job(job_with_units(2, 10, 1, &[4, 5])));
    let mut conn = ConnectionState::new(5);
    admit_and_load(&mut conn, &mut reg);
    let mut worked = Vec::new();
    for _ in 0..6 {
        match choose_work(&mut conn, &mut reg) {
            Step::Work(id, seed) => {
                assert_eq!(id, 2);
                worked.push(seed);
            }
            Step::NeedWork(id) => assert_eq!(id, 2),
            Step::Wait => break,
            other => panic!("unexpected {:?}", other),
        }
    }
    assert_eq!(worked, vec![4, 5]);
    assert_eq!(reg.jobs[0].queue, vec![1, 2, 3]);
}

#[test]
fn empty_queue_marks_stale_until_refilled() {
    let mut reg = Registry::new();
    assert!(reg.add_job(job_with_units(7, 0, 1, &[])));
    let mut conn = ConnectionState::new(0);
    admit_and_load(&mut conn, &mut reg);
    assert_eq!(choose_work(&mut conn, &mut reg), Step::NeedWork(7));
    assert!(reg.jobs[0].stale);
    assert_eq!(choose_work(&mut conn, &mut reg), Step::Wait);
    assert!(reg.jobs[0].push_work(70));
    assert_eq!(choose_work(&mut conn, &mut reg), Step::Wait);
    reg.jobs[0].stale = false;
    assert_eq!(choose_work(&mut conn, &mut reg), Step::Work(7, 70));
}

#[test]
fn disconnect_owed_once_for_each_loaded_job() {
    let mut reg = Registry::new();
    assert!(reg.add_job(job_with_units(1, 0, 1, &[])));
    assert!(reg.add_job(job_with_units(2, 0, 1, &[])));
    assert!(reg.add_job(job_with_units(3, 0, 1, &[])));
    let mut conn = ConnectionState::new(0);
    assert_eq!(choose_work(&mut conn, &mut reg), Step::Add(1));
    assert_eq!(choose_work(&mut conn, &mut reg), Step::Add(2));
    assert_eq!(choose_work(&mut conn, &mut reg), Step::Add(3));
    apply_update(&mut conn, &reg, 1, 5, UpdateKind::InitDone);
    apply_update(&mut conn, &reg, 2, 5, UpdateKind::InitFailed);
    // Job 3 never reported loading.
    assert_eq!(disconnect_targets(&conn, &reg), vec![1]);
}

#[test]
fn disconnect_not_owed_for_unregistered_job() {
    let mut reg = Registry::new();
    assert!(reg.add_job(job_with_units(1, 0, 1, &[])));
    let mut conn = ConnectionState::new(0);
    admit_and_load(&mut conn, &mut reg);
    assert!(reg.remove_job(1));
    assert_eq!(disconnect_targets(&conn, &reg), Vec::<u64>::new());
}

#[test]
fn removed_job_reaped_exactly_once() {
    let mut reg = Registry::new();
    assert!(reg.add_job(job_with_units(1, 0, 1, &[10, 11])));
    assert!(reg.add_job(job_with_units(2, 0, 1, &[20, 21, 22])));
    let mut conn = ConnectionState::new(0);
    admit_and_load(&mut conn, &mut reg);
    assert!(reg.remove_job(1));
    assert!(!reg.remove_job(1));
    assert_eq!(choose_work(&mut conn, &mut reg), Step::Remove(1));
    assert!(conn.index_of(1).is_none());
    for _ in 0..5 {
        match choose_work(&mut conn, &mut reg) {
            Step::Work(id, _) | Step::NeedWork(id) | Step::Remove(id) | Step::Add(id) => {
                assert_eq!(id, 2)
            }
            Step::Wait => {}
        }
    }
}

#[test]
fn admission_comes_before_work() {
    let mut reg = Registry::new();
    assert!(reg.add_job(job_with_units(1, 0, 1, &[10])));
    let mut conn = ConnectionState::new(0);
    admit_and_load(&mut conn, &mut reg);
    assert!(reg.add_job(job_with_units(2, 0, 1, &[20])));
    assert_eq!(choose_work(&mut conn, &mut reg), Step::Add(2));
    assert_eq!(state_of(&conn, 2), JobState::Loading);
    assert_eq!(energy_of(&conn, 2), 0);
    // Job 2 is still loading, so job 1 gets the unit.
    assert_eq!(choose_work(&mut conn, &mut reg), Step::Work(1, 10));
}

#[test]
fn renormalization_keeps_least_energy_zero() {
    let mut reg = Registry::new();
    assert!(reg.add_job(job_with_units(1, 0, 2, &[10, 11])));
    assert!(reg.add_job(job_with_units(2, 0, 1, &[20, 21])));
    let mut conn = ConnectionState::new(0);
    admit_and_load(&mut conn, &mut reg);
    // Loading reports took the estimate back and charged the measured 100 ms.
    assert_eq!(energy_of(&conn, 1), 0);
    assert_eq!(energy_of(&conn, 2), 0);
    assert_eq!(choose_work(&mut conn, &mut reg), Step::Work(1, 10));
    assert_eq!(energy_of(&conn, 1), 200);
    assert_eq!(energy_of(&conn, 2), 0);
    assert_eq!(choose_work(&mut conn, &mut reg), Step::Work(2, 20));
    assert_eq!(energy_of(&conn, 1), 100);
    assert_eq!(energy_of(&conn, 2), 0);
    assert_eq!(choose_work(&mut conn, &mut reg), Step::Work(2, 21));
    assert_eq!(energy_of(&conn, 1), 0);
    assert_eq!(energy_of(&conn, 2), 0);
    assert_eq!(reg.jobs[0].free_slots, 99);
    assert_eq!(reg.jobs[1].free_slots, 100);
}

#[test]
fn fresh_job_served_before_job_with_service() {
    let mut reg = Registry::new();
    assert!(reg.add_job(job_with_units(1, 0, 1, &[10, 11, 12])));
    let mut conn = ConnectionState::new(0);
    admit_and_load(&mut conn, &mut reg);
    assert_eq!(choose_work(&mut conn, &mut reg), Step::Work(1, 10));
    assert_eq!(energy_of(&conn, 1), 0);
    apply_update(&mut conn, &reg, 1, 300, UpdateKind::Result);
    assert_eq!(energy_of(&conn, 1), 200);
    assert!(reg.add_job(job_with_units(2, 0, 1, &[20])));
    assert_eq!(choose_work(&mut conn, &mut reg), Step::Add(2));
    apply_update(&mut conn, &reg, 2, 100, UpdateKind::InitDone);
    assert_eq!(choose_work(&mut conn, &mut reg), Step::Work(2, 20));
}

#[test]
fn update_on_unknown_job_is_ignored() {
    let mut reg = Registry::new();
    assert!(reg.add_job(job_with_units(1, 0, 1, &[])));
    let mut conn = ConnectionState::new(0);
    let o = apply_update(&mut conn, &reg, 1, 50, UpdateKind::InitDone);
    assert_eq!(o, UpdateOutcome { forward: false, newly_loaded: false });
    assert!(conn.jobs.is_empty());
}

#[test]
fn update_after_job_unregistered_is_ignored() {
    let mut reg = Registry::new();
    assert!(reg.add_job(job_with_units(1, 0, 1, &[])));
    let mut conn = ConnectionState::new(0);
    assert_eq!(choose_work(&mut conn, &mut reg), Step::Add(1));
    assert!(reg.remove_job(1));
    let o = apply_update(&mut conn, &reg, 1, 50, UpdateKind::InitDone);
    assert_eq!(o, UpdateOutcome { forward: false, newly_loaded: false });
    assert_eq!(state_of(&conn, 1), JobState::Loading);
    assert_eq!(energy_of(&conn, 1), 0);
}

#[test]
fn update_kinds_move_state() {
    let mut reg = Registry::new();
    assert!(reg.add_job(job_with_units(1, 0, 3, &[])));
    let mut conn = ConnectionState::new(0);
    assert_eq!(choose_work(&mut conn, &mut reg), Step::Add(1));
    let o = apply_update(&mut conn, &reg, 1, 40, UpdateKind::InitDone);
    assert_eq!(o, UpdateOutcome { forward: true, newly_loaded: true });
    assert_eq!(state_of(&conn, 1), JobState::Loaded);
    assert_eq!(energy_of(&conn, 1), 3 * 40 - 3 * 100);
    let o = apply_update(&mut conn, &reg, 1, 100, UpdateKind::Result);
    assert_eq!(o, UpdateOutcome { forward: true, newly_loaded: false });
    assert_eq!(state_of(&conn, 1), JobState::Loaded);
    assert_eq!(energy_of(&conn, 1), -180);
    apply_update(&mut conn, &reg, 1, 100, UpdateKind::Disconnect);
    assert_eq!(state_of(&conn, 1), JobState::Failed);
    apply_update(&mut conn, &reg, 1, 100, UpdateKind::InitFailed);
    assert_eq!(state_of(&conn, 1), JobState::Failed);
}

#[test]
fn select_report_cycle_charges_measured_cost() {
    let e = debit(-40, 3);
    assert_eq!(e, 260);
    assert_eq!(correct(e, 3, 250), -40 + 3 * 250);
    assert_eq!(correct(0, 2, 100), 0);
}

#[test]
fn energy_arithmetic_saturates() {
    assert_eq!(saturating_add(i128::MAX, 1), i128::MAX);
    assert_eq!(saturating_add(i128::MIN, -1), i128::MIN);
    assert_eq!(saturating_add(5, -7), -2);
    assert_eq!(saturating_sub(i128::MAX, -1), i128::MAX);
    assert_eq!(saturating_sub(i128::MIN, 1), i128::MIN);
    assert_eq!(saturating_sub(5, 7), -2);
    assert_eq!(weighted_cost(u32::MAX, u32::MAX), (u32::MAX as i128) * (u32::MAX as i128));
    assert_eq!(debit(i128::MAX - 10, 1), i128::MAX);
}

#[test]
fn limiter_bounds_queued_units() {
    let mut job = RegistryJob::new(1, 0, 1, 2);
    assert!(job.push_work(1));
    assert!(job.push_work(2));
    assert!(!job.push_work(3));
    assert_eq!(job.queue, vec![1, 2]);
    assert_eq!(job.take_unit(), Some(1));
    assert_eq!(job.free_slots, 1);
    assert!(job.push_work(3));
    assert_eq!(job.take_unit(), Some(2));
    assert_eq!(job.take_unit(), Some(3));
    assert!(!job.stale);
    assert_eq!(job.take_unit(), None);
    assert!(job.stale);
}

#[test]
fn registry_refuses_duplicate_ids() {
    let mut reg = Registry::new();
    assert!(reg.add_job(RegistryJob::new(4, 0, 1, 1)));
    assert!(!reg.add_job(RegistryJob::new(4, 9, 1, 1)));
    assert_eq!(reg.jobs.len(), 1);
    assert_eq!(reg.jobs[0].priority, 0);
    assert_eq!(reg.index_of(4), Some(0));
    assert_eq!(reg.index_of(5), None);
}

#[test]
fn nothing_registered_means_wait() {
    let mut reg = Registry::new();
    let mut conn = ConnectionState::new(0);
    assert_eq!(choose_work(&mut conn, &mut reg), Step::Wait);
}
