//! The manager's registry of live jobs and the orders' persistent rows.
//!
//! The manager is a single actor: every cross-task mutation arrives as a
//! command and is applied here, one at a time.  It owns two maps keyed by
//! order ID — the live handles and the supervisor tasks — allocates order
//! IDs, answers live-status queries, garbage-collects finished
//! supervisors, and writes the terminal rows.  The actor loop, the
//! channels and the database live outside; this module makes the
//! decisions and pins each one down.

use vstd::prelude::*;

use crate::status::JobTerminationStatus;

verus! {

/// Milliseconds between self-scheduled prune sweeps.
pub const PRUNE_INTERVAL_MILLIS: u64 = 30000;

/// No order ID occurs twice.
pub open spec fn distinct_ids(s: Seq<i64>) -> bool {
    forall|i: int, j: int| 0 <= i < j < s.len() ==> s[i] != s[j]
}

/// The ID `x` occurs in `s`.
pub open spec fn has_id(s: Seq<i64>, x: i64) -> bool {
    exists|k: int| 0 <= k < s.len() && s[k] == x
}

/// The manager's in-memory registry: which orders have a published live
/// handle, and which have a supervisor task to garbage-collect.
pub struct ManagerState {
    live: Vec<i64>,
    tasks: Vec<i64>,
}

impl ManagerState {
    /// The orders with a live handle.
    pub closed spec fn live_ids(&self) -> Seq<i64> {
        self.live@
    }

    /// The orders with a registered supervisor task.
    pub closed spec fn task_ids(&self) -> Seq<i64> {
        self.tasks@
    }

    /// Each registry holds at most one entry per order ID.
    pub open spec fn wf(&self) -> bool {
        distinct_ids(self.live_ids()) && distinct_ids(self.task_ids())
    }

    /// An empty registry, as the manager starts with.
    pub fn new() -> (m: ManagerState)
        ensures
            m.wf(),
            m.live_ids() =~= Seq::<i64>::empty(),
            m.task_ids() =~= Seq::<i64>::empty(),
    {
        ManagerState { live: Vec::new(), tasks: Vec::new() }
    }

    /// Whether the manager still holds a live handle for `order_id`.
    pub fn has_live_handle(&self, order_id: i64) -> (present: bool)
        ensures
            present == has_id(self.live_ids(), order_id),
    {
        contains_id(&self.live, order_id)
    }

    /// Whether a supervisor task is registered for `order_id`.
    pub fn has_task(&self, order_id: i64) -> (present: bool)
        ensures
            present == has_id(self.task_ids(), order_id),
    {
        contains_id(&self.tasks, order_id)
    }

    /// A supervisor task was spawned for `order_id`: remember it so the
    /// prune sweep can collect it.
    pub fn upload_files(&mut self, order_id: i64)
        requires
            old(self).wf(),
        ensures
            final(self).wf(),
            has_id(final(self).task_ids(), order_id),
            forall|x: i64|
                has_id(final(self).task_ids(), x) <==> has_id(old(self).task_ids(), x) || x
                    == order_id,
            final(self).live_ids() == old(self).live_ids(),
    {
        insert_id(&mut self.tasks, order_id);
    }

    /// A supervisor announced itself: store its live handle.
    pub fn begin_work(&mut self, order_id: i64)
        requires
            old(self).wf(),
        ensures
            final(self).wf(),
            has_id(final(self).live_ids(), order_id),
            forall|x: i64|
                has_id(final(self).live_ids(), x) <==> has_id(old(self).live_ids(), x) || x
                    == order_id,
            final(self).task_ids() == old(self).task_ids(),
    {
        insert_id(&mut self.live, order_id);
    }

    /// A supervisor finished after persisting its terminal row: drop both
    /// of its registry entries.
    pub fn finish_work(&mut self, order_id: i64)
        requires
            old(self).wf(),
        ensures
            final(self).wf(),
            !has_id(final(self).live_ids(), order_id),
            !has_id(final(self).task_ids(), order_id),
            forall|x: i64|
                x != order_id ==> (has_id(final(self).live_ids(), x) <==> has_id(
                    old(self).live_ids(),
                    x,
                )),
            forall|x: i64|
                x != order_id ==> (has_id(final(self).task_ids(), x) <==> has_id(
                    old(self).task_ids(),
                    x,
                )),
    {
        remove_id(&mut self.live, order_id);
        remove_id(&mut self.tasks, order_id);
    }

    /// The prune sweep found the supervisor task of `order_id` finished:
    /// drop both of its registry entries.
    pub fn prune_job(&mut self, order_id: i64)
        requires
            old(self).wf(),
        ensures
            final(self).wf(),
            !has_id(final(self).live_ids(), order_id),
            !has_id(final(self).task_ids(), order_id),
            forall|x: i64|
                x != order_id ==> (has_id(final(self).live_ids(), x) <==> has_id(
                    old(self).live_ids(),
                    x,
                )),
            forall|x: i64|
                x != order_id ==> (has_id(final(self).task_ids(), x) <==> has_id(
                    old(self).task_ids(),
                    x,
                )),
    {
        self.finish_work(order_id);
    }
}

/// What the manager answers to a live-status query.
#[derive(Clone, Copy, Debug, PartialEq, Eq, Structural)]
pub enum QueryLiveStatusReply {
    /// The job is running: hand the caller a clone of the handle.
    HandOutClone,
    /// The handle's termination broadcast has closed: answer that the job
    /// is not live and schedule a prune sweep.
    NotLiveSchedulePrune,
    /// No handle is held: answer that the job is not live.
    NotLive,
}

/// Decide a live-status query from whether a handle is held and, if one
/// is, whether its termination broadcast has already closed.  A caller
/// receives a handle exactly when one is held and its supervisor has not
/// yet terminated; a query that finds the broadcast closed schedules the
/// prune that removes the dead entry.
pub fn query_live_status(handle_present: bool, termination_closed: bool) -> (reply:
    QueryLiveStatusReply)
    ensures
        reply == QueryLiveStatusReply::HandOutClone <==> handle_present && !termination_closed,
        reply == QueryLiveStatusReply::NotLiveSchedulePrune <==> handle_present
            && termination_closed,
        reply == QueryLiveStatusReply::NotLive <==> !handle_present,
        reply == query_live_status_spec(handle_present, termination_closed),
{
    if handle_present {
        if termination_closed {
            QueryLiveStatusReply::NotLiveSchedulePrune
        } else {
            QueryLiveStatusReply::HandOutClone
        }
    } else {
        QueryLiveStatusReply::NotLive
    }
}

/// Once a supervisor's termination broadcast has closed, a query answers
/// that the job is not live, and after the prune it schedules has run,
/// the handle is gone and every later query answers the same.
pub proof fn lemma_query_after_termination(pre: ManagerState, post: ManagerState, order_id: i64)
    requires
        pre.wf(),
        !has_id(post.live_ids(), order_id),
    ensures
        query_live_status_spec(has_id(pre.live_ids(), order_id), true)
            != QueryLiveStatusReply::HandOutClone,
        query_live_status_spec(has_id(post.live_ids(), order_id), false)
            == QueryLiveStatusReply::NotLive,
{
}

/// The decision `query_live_status` returns.
pub open spec fn query_live_status_spec(handle_present: bool, termination_closed: bool) -> QueryLiveStatusReply {
    if handle_present {
        if termination_closed {
            QueryLiveStatusReply::NotLiveSchedulePrune
        } else {
            QueryLiveStatusReply::HandOutClone
        }
    } else {
        QueryLiveStatusReply::NotLive
    }
}

/// How a supervisor task was found to have ended by the prune sweep.
#[derive(Clone, Debug, PartialEq)]
pub enum TaskOutcome {
    /// It returned successfully, having already persisted its row.
    Completed,
    /// It returned an error before persisting anything.
    Failed(String),
    /// It panicked.
    Panicked(String),
}

/// The terminal status the prune sweep writes for a collected task:
/// nothing for a clean return, an unclean-termination record otherwise.
pub fn prune_status(outcome: &TaskOutcome) -> (status: Option<JobTerminationStatus>)
    ensures
        match outcome {
            TaskOutcome::Completed => status is None,
            TaskOutcome::Failed(reason) => status matches Some(
                JobTerminationStatus::VeryAbnormalTermination(m),
            ) && m@ == "Task returned Err: "@ + reason@,
            TaskOutcome::Panicked(reason) => status matches Some(
                JobTerminationStatus::VeryAbnormalTermination(m),
            ) && m@ == "Task panic: "@ + reason@,
        },
{
    match outcome {
        TaskOutcome::Completed => None,
        TaskOutcome::Failed(reason) => {
            let mut message = String::from_str("Task returned Err: ");
            message.append(reason.as_str());
            Some(JobTerminationStatus::VeryAbnormalTermination(message))
        },
        TaskOutcome::Panicked(reason) => {
            let mut message = String::from_str("Task panic: ");
            message.append(reason.as_str());
            Some(JobTerminationStatus::VeryAbnormalTermination(message))
        },
    }
}

/// Mask a raw random draw into a non-negative order ID: the top bit is
/// cleared, so the ID fits the signed column it is stored in.
pub fn mask_order_id(raw: u64) -> (id: i64)
    ensures
        id == (raw & 0x7fffffffffffffff) as i64,
        0 <= id,
{
    let masked: u64 = raw & 0x7fffffffffffffff;
    proof {
        assert(raw & 0x7fffffffffffffff <= 0x7fffffffffffffff) by (bit_vector);
    }
    masked as i64
}

/// Relies on `rand::random`: draws a value from thread-local randomness;
/// nothing is promised of which value comes back.
#[verifier::external_body]
fn random_u64() -> u64 {
    rand::random::<u64>()
}

/// Allocate a fresh order ID: a random draw with the top bit cleared, so
/// every allocated ID is non-negative.
pub fn allocate_order_id() -> (id: i64)
    ensures
        0 <= id,
{
    let raw: u64 = random_u64();
    mask_order_id(raw)
}

/// One row of the orders table, as the core reads and writes it.
pub struct OrderRow {
    pub id: i64,
    pub user_id: i64,
    pub created_at_unix_time: i64,
    /// The originally uploaded relative paths.
    pub src_file_list: Vec<String>,
    pub is_running: bool,
    pub is_on_disk: bool,
    /// The terminal status; present exactly when the order is no longer
    /// running.
    pub status_json: Option<JobTerminationStatus>,
}

impl OrderRow {
    /// A row is either running with no terminal status, or finished with
    /// one — never both, never neither.
    pub open spec fn wf(&self) -> bool {
        self.is_running <==> self.status_json is None
    }

    /// The row inserted when an order is allocated: running, on disk,
    /// with no terminal status and no files yet.
    pub fn new(id: i64, user_id: i64, created_at_unix_time: i64) -> (row: OrderRow)
        ensures
            row.wf(),
            row.id == id,
            row.user_id == user_id,
            row.created_at_unix_time == created_at_unix_time,
            row.src_file_list@ =~= Seq::<String>::empty(),
            row.is_running,
            row.is_on_disk,
            row.status_json is None,
    {
        OrderRow {
            id,
            user_id,
            created_at_unix_time,
            src_file_list: Vec::new(),
            is_running: true,
            is_on_disk: true,
            status_json: None,
        }
    }

    /// Write the terminal status: the row leaves the running state and
    /// holds the status, whatever state it was in before.
    pub fn finish(&mut self, status: JobTerminationStatus)
        ensures
            final(self).wf(),
            !final(self).is_running,
            final(self).status_json == Some(status),
            final(self).id == old(self).id,
            final(self).user_id == old(self).user_id,
            final(self).created_at_unix_time == old(self).created_at_unix_time,
            final(self).src_file_list == old(self).src_file_list,
            final(self).is_on_disk == old(self).is_on_disk,
    {
        self.is_running = false;
        self.status_json = Some(status);
    }
}

/// The status written over every order still flagged running when the
/// application starts: its supervisor cannot exist any more.
pub fn restart_sweep_status() -> (status: JobTerminationStatus)
    ensures
        status matches JobTerminationStatus::VeryAbnormalTermination(reason) && reason@
            == "Job was marked as running across application restart"@,
{
    JobTerminationStatus::VeryAbnormalTermination(
        String::from_str("Job was marked as running across application restart"),
    )
}

/// Apply the startup sweep to one row: a row still flagged running is
/// finished with the restart status; a finished row is left alone.
pub fn sweep_row(row: &mut OrderRow)
    requires
        old(row).wf(),
    ensures
        final(row).wf(),
        !final(row).is_running,
        old(row).is_running ==> (final(row).status_json matches Some(
            JobTerminationStatus::VeryAbnormalTermination(reason),
        ) && reason@ == "Job was marked as running across application restart"@),
        !old(row).is_running ==> *final(row) == *old(row),
        final(row).id == old(row).id,
        final(row).user_id == old(row).user_id,
        final(row).created_at_unix_time == old(row).created_at_unix_time,
        final(row).src_file_list == old(row).src_file_list,
        final(row).is_on_disk == old(row).is_on_disk,
{
    if row.is_running {
        row.finish(restart_sweep_status());
    }
}

/// Whether `ids` holds `x`.
fn contains_id(ids: &Vec<i64>, x: i64) -> (present: bool)
    ensures
        present == has_id(ids@, x),
{
    let n: usize = ids.len();
    let mut i: usize = 0;
    while i < n
        invariant
            n == ids@.len(),
            0 <= i <= n,
            forall|k: int| 0 <= k < i ==> ids@[k] != x,
        decreases n - i,
    {
        if ids[i] == x {
            return true;
        }
        i = i + 1;
    }
    false
}

/// Insert `x` if it is not there yet; distinctness is preserved.
fn insert_id(ids: &mut Vec<i64>, x: i64)
    requires
        distinct_ids(old(ids)@),
    ensures
        distinct_ids(final(ids)@),
        has_id(final(ids)@, x),
        forall|y: i64| has_id(final(ids)@, y) <==> has_id(old(ids)@, y) || y == x,
{
    if !contains_id(ids, x) {
        ids.push(x);
        proof {
            assert(ids@[ids@.len() - 1] == x);
            assert forall|y: i64| has_id(ids@, y) implies has_id(old(ids)@, y) || y == x by {
                let k = choose|k: int| 0 <= k < ids@.len() && ids@[k] == y;
                if k < ids@.len() - 1 {
                    assert(old(ids)@[k] == y);
                }
            }
            assert forall|y: i64| has_id(old(ids)@, y) implies has_id(ids@, y) by {
                let k = choose|k: int| 0 <= k < old(ids)@.len() && old(ids)@[k] == y;
                assert(ids@[k] == y);
            }
        }
    }
}

/// Remove `x` if it is there; distinctness means at most one entry goes.
fn remove_id(ids: &mut Vec<i64>, x: i64)
    requires
        distinct_ids(old(ids)@),
    ensures
        distinct_ids(final(ids)@),
        !has_id(final(ids)@, x),
        forall|y: i64| y != x ==> (has_id(final(ids)@, y) <==> has_id(old(ids)@, y)),
{
    let n: usize = ids.len();
    let mut i: usize = 0;
    while i < n
        invariant
            n == ids@.len(),
            0 <= i <= n,
            ids@ == old(ids)@,
            distinct_ids(ids@),
            forall|k: int| 0 <= k < i ==> ids@[k] != x,
        decreases n - i,
    {
        if ids[i] == x {
            let ghost pre = ids@;
            ids.remove(i);
            proof {
                pre.remove_ensures(i as int);
                assert forall|k: int| 0 <= k < ids@.len() implies ids@[k] != x by {
                    if k < i as int {
                        assert(ids@[k] == pre[k]);
                    } else {
                        assert(ids@[k] == pre[k + 1]);
                        assert(pre[i as int] != pre[k + 1]);
                    }
                }
                assert forall|y: i64| y != x && has_id(ids@, y) implies has_id(pre, y) by {
                    let k = choose|k: int| 0 <= k < ids@.len() && ids@[k] == y;
                    if k < i as int {
                        assert(pre[k] == y);
                    } else {
                        assert(pre[k + 1] == y);
                    }
                }
                assert forall|y: i64| y != x && has_id(pre, y) implies has_id(ids@, y) by {
                    let k = choose|k: int| 0 <= k < pre.len() && pre[k] == y;
                    if k < i as int {
                        assert(ids@[k] == y);
                    } else {
                        assert(pre[i as int] == x);
                        assert(k != i as int);
                        assert(ids@[k - 1] == y);
                    }
                }
                assert forall|a: int, b: int| 0 <= a < b < ids@.len() implies ids@[a] != ids@[b]
                    by {
                    if b < i as int {
                        assert(pre[a] == ids@[a] && pre[b] == ids@[b]);
                    } else if a < i as int {
                        assert(pre[a] == ids@[a] && pre[b + 1] == ids@[b]);
                    } else {
                        assert(pre[a + 1] == ids@[a] && pre[b + 1] == ids@[b]);
                    }
                }
            }
            return ;
        }
        i = i + 1;
    }
}

} // verus!
