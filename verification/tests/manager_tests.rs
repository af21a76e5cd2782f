use buildmeter::manager::{
    mask_order_id, prune_status, query_live_status, restart_sweep_status, sweep_row,
    ManagerState, OrderRow, QueryLiveStatusReply, TaskOutcome,
};
use buildmeter::status::JobTerminationStatus;

#[test]
fn registry_tracks_handles_and_tasks() {
    let mut m = ManagerState::new();
    assert!(!m.has_live_handle(1));
    m.upload_files(1);
    assert!(m.has_task(1));
    assert!(!m.has_live_handle(1));
    m.begin_work(1);
    assert!(m.has_live_handle(1));
    m.finish_work(1);
    assert!(!m.has_live_handle(1));
    assert!(!m.has_task(1));
}

#[test]
fn registering_twice_keeps_one_entry() {
    // At most one live-handle entry exists per order at any time: a
    // second announcement for the same order does not pile up, and one
    // removal leaves nothing behind.
    let mut m = ManagerState::new();
    m.begin_work(5);
    m.begin_work(5);
    assert!(m.has_live_handle(5));
    m.finish_work(5);
    assert!(!m.has_live_handle(5));
}

#[test]
fn finishing_one_order_leaves_others() {
    let mut m = ManagerState::new();
    m.begin_work(1);
    m.begin_work(2);
    m.upload_files(2);
    m.finish_work(1);
    assert!(!m.has_live_handle(1));
    assert!(m.has_live_handle(2));
    assert!(m.has_task(2));
}

#[test]
fn query_decides_from_handle_and_broadcast() {
    assert_eq!(query_live_status(true, false), QueryLiveStatusReply::HandOutClone);
    assert_eq!(query_live_status(true, true), QueryLiveStatusReply::NotLiveSchedulePrune);
    assert_eq!(query_live_status(false, false), QueryLiveStatusReply::NotLive);
    assert_eq!(query_live_status(false, true), QueryLiveStatusReply::NotLive);
}

#[test]
fn query_after_termination_returns_none_then_prunes() {
    // A query that finds the termination broadcast closed answers that
    // the job is not live and schedules a prune; after the prune the
    // handle is gone and every later query answers the same.
    let mut m = ManagerState::new();
    m.upload_files(3);
    m.begin_work(3);
    let reply = query_live_status(m.has_live_handle(3), true);
    assert_eq!(reply, QueryLiveStatusReply::NotLiveSchedulePrune);
    m.prune_job(3);
    let reply = query_live_status(m.has_live_handle(3), false);
    assert_eq!(reply, QueryLiveStatusReply::NotLive);
}

#[test]
fn prune_writes_unclean_terminations() {
    assert_eq!(prune_status(&TaskOutcome::Completed), None);
    match prune_status(&TaskOutcome::Panicked("boom".to_string())) {
        Some(JobTerminationStatus::VeryAbnormalTermination(reason)) => {
            assert_eq!(reason, "Task panic: boom");
        }
        other => panic!("expected an unclean termination, got {:?}", other),
    }
    match prune_status(&TaskOutcome::Failed("fork failed".to_string())) {
        Some(JobTerminationStatus::VeryAbnormalTermination(reason)) => {
            assert_eq!(reason, "Task returned Err: fork failed");
        }
        other => panic!("expected an unclean termination, got {:?}", other),
    }
}

#[test]
fn panicked_supervisor_leaves_finished_row() {
    // A supervisor that panics after announcing itself is collected by
    // the prune sweep, which writes an unclean termination to its row.
    let mut m = ManagerState::new();
    m.upload_files(4);
    m.begin_work(4);
    let mut row = OrderRow::new(4, 77, 1_700_000_000);
    let status = prune_status(&TaskOutcome::Panicked("supervisor died".to_string()))
        .expect("a panic produces a terminal status");
    row.finish(status);
    m.prune_job(4);
    assert!(!row.is_running);
    match row.status_json {
        Some(JobTerminationStatus::VeryAbnormalTermination(reason)) => {
            assert_eq!(reason, "Task panic: supervisor died");
        }
        other => panic!("expected an unclean termination, got {:?}", other),
    }
    assert!(!m.has_live_handle(4));
    assert!(!m.has_task(4));
}

#[test]
fn allocated_ids_have_top_bit_cleared() {
    assert_eq!(mask_order_id(0), 0);
    assert_eq!(mask_order_id(u64::MAX), i64::MAX);
    assert_eq!(mask_order_id(0x8000_0000_0000_0000), 0);
    assert_eq!(mask_order_id(0x8000_0000_0000_0001), 1);
    assert_eq!(mask_order_id(12345), 12345);
    for raw in [0u64, 1, u64::MAX, 0xdead_beef_dead_beef, 0x7fff_ffff_ffff_ffff] {
        assert!(mask_order_id(raw) >= 0);
    }
}

#[test]
fn fresh_rows_are_running_without_status() {
    let row = OrderRow::new(21, 9, 1_700_000_123);
    assert!(row.is_running);
    assert!(row.is_on_disk);
    assert!(row.status_json.is_none());
    assert_eq!(row.id, 21);
    assert_eq!(row.user_id, 9);
    assert_eq!(row.created_at_unix_time, 1_700_000_123);
    assert!(row.src_file_list.is_empty());
}

#[test]
fn finished_rows_hold_exactly_one_status() {
    let mut row = OrderRow::new(22, 9, 0);
    row.finish(restart_sweep_status());
    assert!(!row.is_running);
    assert!(row.status_json.is_some());
}

#[test]
fn startup_sweep_rewrites_running_rows() {
    // A row marked running across a restart becomes an unclean
    // termination; a finished row is untouched.
    let mut running = OrderRow::new(30, 1, 5);
    sweep_row(&mut running);
    assert!(!running.is_running);
    match running.status_json {
        Some(JobTerminationStatus::VeryAbnormalTermination(reason)) => {
            assert_eq!(reason, "Job was marked as running across application restart");
        }
        other => panic!("expected the restart status, got {:?}", other),
    }

    let mut finished = OrderRow::new(31, 1, 5);
    finished.finish(JobTerminationStatus::AbnormalTermination("gone".to_string()));
    sweep_row(&mut finished);
    assert!(!finished.is_running);
    match finished.status_json {
        Some(JobTerminationStatus::AbnormalTermination(reason)) => {
            assert_eq!(reason, "gone");
        }
        other => panic!("expected the original status, got {:?}", other),
    }
}

#[test]
fn live_allocation_never_yields_negative_ids() {
    for _ in 0..64 {
        assert!(buildmeter::manager::allocate_order_id() >= 0);
    }
}
