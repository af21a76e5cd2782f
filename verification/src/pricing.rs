//! Pricing schedule, execution metrics, and the cost formula.
//!
//! Money is measured in micro-credits (one credit is `MICROS_PER_CREDIT`
//! micro-credits) and durations in milliseconds, so every cost is an exact
//! integer and the cost of a metrics vector is pinned down bit for bit.

use vstd::prelude::*;

verus! {

/// Micro-credits per credit: all factors below are quoted in micro-credits.
pub const MICROS_PER_CREDIT: u64 = 1000000;

/// Upper bound on any single cost component produced by `calculate_costs`:
/// a `u64` quantity times a `u32` factor never reaches `2^96`.
pub const COST_COMPONENT_LIMIT: u128 = 0x1000000000000000000000000;

/// The pricing vector applied to a job's metrics.
///
/// Time factors are micro-credits per millisecond; `upload_mb_factor` is
/// micro-credits per thousandth of a megabyte; `upload_file_factor` and
/// `process_fork_cost` are micro-credits per file and per distinct process.
#[derive(Clone, Copy, Debug, PartialEq, Eq, Structural)]
pub struct PricingInfo {
    pub cpu_time_factor: u32,
    pub wall_time_factor: u32,
    pub upload_mb_factor: u32,
    pub upload_file_factor: u32,
    pub process_fork_cost: u32,
    pub overdraft_millis_allowed: u32,
    pub error_order_cost: u64,
}

/// A running job's resource usage, as sampled by its supervisor.
///
/// `uploaded_millimb` counts thousandths of a megabyte.
/// `time_until_overdraft_stop` is in milliseconds and may be negative once
/// the overdraft allowance has run out.
#[derive(Clone, Copy, Debug, PartialEq)]
pub struct OrderExecutionMetrics {
    pub cpu_millis: u64,
    pub wall_millis: u64,
    pub processes_forked: u64,
    pub uploaded_millimb: u64,
    pub uploaded_files: u64,
    pub time_until_overdraft_stop: Option<i64>,
}

/// The five cost components of a metrics vector under a pricing vector.
#[derive(Clone, Copy, Debug, PartialEq)]
pub struct OrderExecutionMetricsCosts {
    pub cpu_time: u128,
    pub wall_time: u128,
    pub processes: u128,
    pub upload_mb: u128,
    pub upload_files: u128,
}

/// The total cost of metrics `m` under pricing `p`, in micro-credits:
/// the sum of the five products of a quantity with its factor.
pub open spec fn cost_of(m: OrderExecutionMetrics, p: PricingInfo) -> int {
    m.cpu_millis * p.cpu_time_factor + m.wall_millis * p.wall_time_factor
        + m.processes_forked * p.process_fork_cost + m.uploaded_millimb * p.upload_mb_factor
        + m.uploaded_files * p.upload_file_factor
}

impl OrderExecutionMetricsCosts {
    /// The sum of the five components.
    pub open spec fn total_spec(&self) -> int {
        self.cpu_time + self.wall_time + self.processes + self.upload_mb + self.upload_files
    }

    /// Every component is below `COST_COMPONENT_LIMIT`, as `calculate_costs`
    /// guarantees; keeps the total summable without overflow.
    pub open spec fn bounded(&self) -> bool {
        &&& self.cpu_time < COST_COMPONENT_LIMIT
        &&& self.wall_time < COST_COMPONENT_LIMIT
        &&& self.processes < COST_COMPONENT_LIMIT
        &&& self.upload_mb < COST_COMPONENT_LIMIT
        &&& self.upload_files < COST_COMPONENT_LIMIT
    }

    /// The grand total owed for these components, in micro-credits.
    pub fn grand_total(&self) -> (total: u128)
        requires
            self.bounded(),
        ensures
            total == self.total_spec(),
    {
        self.cpu_time + self.wall_time + self.processes + self.upload_mb + self.upload_files
    }
}

impl OrderExecutionMetrics {
    /// The components `calculate_costs` produces: each is the product of
    /// a quantity with its factor.
    pub open spec fn calculate_costs_spec(&self, pricing: PricingInfo) -> OrderExecutionMetricsCosts {
        OrderExecutionMetricsCosts {
            cpu_time: (self.cpu_millis * pricing.cpu_time_factor) as u128,
            wall_time: (self.wall_millis * pricing.wall_time_factor) as u128,
            processes: (self.processes_forked * pricing.process_fork_cost) as u128,
            upload_mb: (self.uploaded_millimb * pricing.upload_mb_factor) as u128,
            upload_files: (self.uploaded_files * pricing.upload_file_factor) as u128,
        }
    }

    /// Price these metrics under `pricing`: each component is exactly the
    /// product of its quantity and its factor, and the components sum to
    /// `cost_of(self, pricing)`.
    pub fn calculate_costs(&self, pricing: &PricingInfo) -> (costs: OrderExecutionMetricsCosts)
        ensures
            costs == self.calculate_costs_spec(*pricing),
            costs.cpu_time == self.cpu_millis * pricing.cpu_time_factor,
            costs.wall_time == self.wall_millis * pricing.wall_time_factor,
            costs.processes == self.processes_forked * pricing.process_fork_cost,
            costs.upload_mb == self.uploaded_millimb * pricing.upload_mb_factor,
            costs.upload_files == self.uploaded_files * pricing.upload_file_factor,
            costs.bounded(),
            costs.total_spec() == cost_of(*self, *pricing),
    {
        proof {
            lemma_component_bounded(self.cpu_millis, pricing.cpu_time_factor);
            lemma_component_bounded(self.wall_millis, pricing.wall_time_factor);
            lemma_component_bounded(self.processes_forked, pricing.process_fork_cost);
            lemma_component_bounded(self.uploaded_millimb, pricing.upload_mb_factor);
            lemma_component_bounded(self.uploaded_files, pricing.upload_file_factor);
        }
        OrderExecutionMetricsCosts {
            cpu_time: self.cpu_millis as u128 * pricing.cpu_time_factor as u128,
            wall_time: self.wall_millis as u128 * pricing.wall_time_factor as u128,
            processes: self.processes_forked as u128 * pricing.process_fork_cost as u128,
            upload_mb: self.uploaded_millimb as u128 * pricing.upload_mb_factor as u128,
            upload_files: self.uploaded_files as u128 * pricing.upload_file_factor as u128,
        }
    }
}

/// A `u64` quantity times a `u32` factor stays below `2^96`.
proof fn lemma_component_bounded(quantity: u64, factor: u32)
    ensures
        quantity * factor < COST_COMPONENT_LIMIT,
{
    assert(quantity * factor < 0x1000000000000000000000000) by (nonlinear_arith)
        requires
            quantity <= 0xffffffffffffffffu64,
            factor <= 0xffffffffu32,
    ;
}

/// The pricing vector currently in force.
pub open spec fn current_pricing() -> PricingInfo {
    PricingInfo {
        cpu_time_factor: 100000,
        wall_time_factor: 5000,
        upload_mb_factor: 50000,
        upload_file_factor: 500000,
        process_fork_cost: 1000000000,
        overdraft_millis_allowed: 60000,
        error_order_cost: 100000000,
    }
}

/// Snapshot of the pricing schedule consumed by supervisors and by the API.
pub fn get_current_pricing() -> (pricing: PricingInfo)
    ensures
        pricing == current_pricing(),
{
    PricingInfo {
        cpu_time_factor: 100000,
        wall_time_factor: 5000,
        upload_mb_factor: 50000,
        upload_file_factor: 500000,
        process_fork_cost: 1000000000,
        overdraft_millis_allowed: 60000,
        error_order_cost: 100000000,
    }
}

} // verus!
