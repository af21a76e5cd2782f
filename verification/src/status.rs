//! Terminal statuses, live job statuses, and the persistent order record.

use vstd::prelude::*;

use crate::pricing::{cost_of, OrderExecutionMetrics, OrderExecutionMetricsCosts, PricingInfo};

verus! {

/// Why a supervised process stopped running.
#[derive(Clone, Copy, Debug, PartialEq, Eq, Structural)]
pub enum TerminationCause {
    /// It terminated by itself.
    NaturalTermination,
    /// Killed because the owner asked for a stop.
    UserKill,
    /// Killed because the owner ran out of money.
    BalanceKill,
}

/// The durable record of how an order ended: the single value written to
/// the order's row when it leaves the running state.
#[derive(Clone, Debug, PartialEq)]
pub enum JobTerminationStatus {
    /// The supervisor could not start the job and terminated it itself.
    AbnormalTermination(String),
    /// The supervisor task died uncleanly (panic, error, or a process
    /// restart) and the manager reaped it.
    VeryAbnormalTermination(String),
    /// The child was reaped after consuming a measured amount of resources.
    ProcessExit {
        exit_code: i32,
        cause: TerminationCause,
        metrics: OrderExecutionMetrics,
        costs: OrderExecutionMetricsCosts,
    },
}

impl JobTerminationStatus {
    /// A `ProcessExit` is priced exactly by the cost formula: its stored
    /// components are the products of its own metrics with `pricing`.
    pub open spec fn priced_under(&self, pricing: PricingInfo) -> bool {
        self matches JobTerminationStatus::ProcessExit { metrics, costs, .. } ==> {
            &&& costs.cpu_time == metrics.cpu_millis * pricing.cpu_time_factor
            &&& costs.wall_time == metrics.wall_millis * pricing.wall_time_factor
            &&& costs.processes == metrics.processes_forked * pricing.process_fork_cost
            &&& costs.upload_mb == metrics.uploaded_millimb * pricing.upload_mb_factor
            &&& costs.upload_files == metrics.uploaded_files * pricing.upload_file_factor
            &&& costs.total_spec() == cost_of(*metrics, pricing)
        }
    }
}

/// The status of a job as published through its live handle.
#[derive(Clone, Debug, PartialEq)]
pub enum JobStatus {
    /// The job is preparing to start executing the makefile.
    Preparing,
    /// The job is currently executing the makefile, with these metrics.
    Executing(OrderExecutionMetrics),
    /// The job is now terminated.
    Terminated(JobTerminationStatus),
}

/// One status frame sent to a live status subscriber.
#[derive(Clone, Debug, PartialEq)]
pub struct LiveStatus {
    pub status: JobStatus,
    pub pricing: PricingInfo,
}

/// What the API returns for a request about an order that is already
/// done: its durable terminal record and the row's remaining columns.
#[derive(Clone, Debug, PartialEq)]
pub struct OrderInfoFull {
    pub record: JobTerminationStatus,
    pub is_on_disk: bool,
    pub created_at_unix_time: u64,
}

/// What the API returns for a request about an order.
#[derive(Clone, Debug, PartialEq)]
pub enum OrderInfoResult {
    /// Either the order does not exist or the caller cannot access it.
    NotAccessible,
    /// The order is currently being executed.
    Running,
    /// The order is completed, with its durable record.
    Completed(OrderInfoFull),
}

} // verus!
