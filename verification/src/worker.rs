//! The order supervisor's decision core.
//!
//! A supervisor forks `make` in a fresh session, then ticks every
//! `TICK_MILLIS`: it refreshes the CPU-time table from the subtree
//! sampler, recomputes the metrics, prices them, latches the overdraft
//! clock when the balance goes negative, decides whether the child must
//! die and why, and finally reaps the child into a terminal status.  The
//! surrounding task performs the fork, the `/proc` reads, the signal
//! delivery and the reaping; every decision in between is made here, as a
//! function of the state and of the values the task hands in, and each
//! tick's entire effect is pinned down by the `tick_*` functions below.

use vstd::prelude::*;

use crate::pricing::{cost_of, OrderExecutionMetrics, PricingInfo};
use crate::sampler::{
    clamp_u64, lemma_record_all_snoc, lemma_total_push, lemma_total_update, record_all, total_of,
    CpuTimeTable,
};
use crate::status::{JobTerminationStatus, TerminationCause};

verus! {

/// Interval between supervise ticks, in milliseconds.
pub const TICK_MILLIS: u64 = 50;

/// Grace period after publishing a terminal status, so live subscribers
/// can observe it before the handle is pruned, in milliseconds.
pub const TERMINAL_GRACE_MILLIS: u64 = 10000;

/// Upper bound on any wall-clock reading handed to a tick, in
/// milliseconds since the child was spawned; `2^62` ms is far beyond any
/// machine's uptime, and keeps every duration inside `i64`.
pub const WALL_LIMIT_MILLIS: u64 = 0x4000000000000000;

/// Everything a supervisor carries between ticks.
pub struct SupervisorState {
    pub order_id: i64,
    /// Pricing snapshot taken when the child was spawned.
    pub pricing: PricingInfo,
    /// The owner's balance when the job started, in micro-credits.
    pub user_balance_at_start: i64,
    pub metrics: OrderExecutionMetrics,
    pub cpu_times: CpuTimeTable,
    /// Wall milliseconds of the tick on which the running cost first
    /// exceeded the balance; never cleared once set.
    pub overdraft_started_at: Option<u64>,
    pub child_should_die: bool,
    pub termination_cause: TerminationCause,
}

/// What one tick tells the surrounding task to do.
pub struct TickOutcome {
    /// The metrics to publish to the status slot.
    pub publish: OrderExecutionMetrics,
    /// Whether to deliver SIGKILL to the child's process group.
    pub kill: bool,
}

impl SupervisorState {
    /// The state's internal consistency: the metrics agree with the
    /// CPU-time table, the overdraft clock never lies in the future, and
    /// a termination cause other than natural is only held once a kill
    /// has been decided.
    pub open spec fn wf(&self) -> bool {
        &&& self.cpu_times.wf()
        &&& self.metrics.cpu_millis == clamp_u64(total_of(self.cpu_times@))
        &&& self.metrics.processes_forked == self.cpu_times@.len() as u64
        &&& self.metrics.wall_millis < WALL_LIMIT_MILLIS
        &&& self.overdraft_started_at matches Some(t) ==> t <= self.metrics.wall_millis
        &&& !self.child_should_die ==> self.termination_cause
            == TerminationCause::NaturalTermination
    }

    /// A fresh supervisor for a just-spawned child: no CPU time seen yet,
    /// the upload figures carried in, no kill decided.
    pub fn new(
        order_id: i64,
        user_balance_at_start: i64,
        pricing: PricingInfo,
        uploaded_millimb: u64,
        uploaded_files: u64,
    ) -> (s: SupervisorState)
        ensures
            s.wf(),
            s.order_id == order_id,
            s.pricing == pricing,
            s.user_balance_at_start == user_balance_at_start,
            s.metrics.cpu_millis == 0,
            s.metrics.wall_millis == 0,
            s.metrics.processes_forked == 0,
            s.metrics.uploaded_millimb == uploaded_millimb,
            s.metrics.uploaded_files == uploaded_files,
            s.metrics.time_until_overdraft_stop is None,
            s.cpu_times@ =~= Seq::<(u64, u64)>::empty(),
            s.overdraft_started_at is None,
            !s.child_should_die,
            s.termination_cause == TerminationCause::NaturalTermination,
    {
        SupervisorState {
            order_id,
            pricing,
            user_balance_at_start,
            metrics: OrderExecutionMetrics {
                cpu_millis: 0,
                wall_millis: 0,
                processes_forked: 0,
                uploaded_millimb,
                uploaded_files,
                time_until_overdraft_stop: None,
            },
            cpu_times: CpuTimeTable::new(),
            overdraft_started_at: None,
            child_should_die: false,
            termination_cause: TerminationCause::NaturalTermination,
        }
    }
}

/// The metrics recomputed from a refreshed table at wall time `now`:
/// CPU and process counts from the table, upload figures carried, and the
/// overdraft countdown still showing its previous reading.  This is also
/// the value published to the status slot, which is written before the
/// countdown is recomputed.
pub open spec fn tick_metrics(s: SupervisorState, table: Seq<(u64, u64)>, now: u64) -> OrderExecutionMetrics {
    OrderExecutionMetrics {
        cpu_millis: clamp_u64(total_of(table)),
        wall_millis: now,
        processes_forked: table.len() as u64,
        uploaded_millimb: s.metrics.uploaded_millimb,
        uploaded_files: s.metrics.uploaded_files,
        time_until_overdraft_stop: s.metrics.time_until_overdraft_stop,
    }
}

/// The balance left after pricing the recomputed metrics, in
/// micro-credits; negative once the job has cost more than the owner had.
pub open spec fn tick_residual(s: SupervisorState, table: Seq<(u64, u64)>, now: u64) -> int {
    s.user_balance_at_start - cost_of(tick_metrics(s, table, now), s.pricing)
}

/// The overdraft clock after this tick: it starts on the first tick whose
/// residual is negative and is never reset afterwards.
pub open spec fn tick_overdraft(s: SupervisorState, table: Seq<(u64, u64)>, now: u64) -> Option<
    u64,
> {
    if s.overdraft_started_at is Some {
        s.overdraft_started_at
    } else if tick_residual(s, table, now) < 0 {
        Some(now)
    } else {
        None
    }
}

/// The overdraft countdown after this tick, in milliseconds: how much of
/// the allowance is left, negative once it has run out; untouched while
/// no overdraft has started.
pub open spec fn tick_time_until_stop(s: SupervisorState, table: Seq<(u64, u64)>, now: u64) -> Option<i64> {
    match tick_overdraft(s, table, now) {
        Some(start) => Some((s.pricing.overdraft_millis_allowed - (now - start)) as i64),
        None => s.metrics.time_until_overdraft_stop,
    }
}

/// Whether this tick finds the overdraft allowance exhausted.
pub open spec fn tick_balance_kill(s: SupervisorState, table: Seq<(u64, u64)>, now: u64) -> bool {
    match tick_overdraft(s, table, now) {
        Some(start) => s.pricing.overdraft_millis_allowed - (now - start) < 0,
        None => false,
    }
}

/// Whether the child must die after this tick: a kill once decided is
/// never revoked, an exhausted overdraft or a raised stop decides one.
pub open spec fn tick_die(s: SupervisorState, table: Seq<(u64, u64)>, now: u64, stop: bool) -> bool {
    s.child_should_die || tick_balance_kill(s, table, now) || stop
}

/// The termination cause after this tick.  A cause, once a kill has been
/// decided, is never reassigned: a stop raised after a balance kill has
/// latched keeps `BalanceKill`.  The balance check runs before the stop
/// check, so a tick that finds both records the balance kill.
pub open spec fn tick_cause(
    s: SupervisorState,
    table: Seq<(u64, u64)>,
    now: u64,
    stop: bool,
) -> TerminationCause {
    if s.child_should_die {
        s.termination_cause
    } else if tick_balance_kill(s, table, now) {
        TerminationCause::BalanceKill
    } else if stop {
        TerminationCause::UserKill
    } else {
        s.termination_cause
    }
}

impl SupervisorState {
    /// One supervise tick.
    ///
    /// `samples` are the `(process, CPU milliseconds)` readings the
    /// sampler took this tick, `now_millis` the wall clock since the
    /// child was spawned, and `stop_requested` whether the stop flag has
    /// been observed raised.  The entire effect is pinned by the `tick_*`
    /// functions; on top of that, the billed totals never decrease and a
    /// started overdraft clock never resets.
    pub fn tick(
        &mut self,
        samples: &Vec<(u64, u64)>,
        now_millis: u64,
        stop_requested: bool,
    ) -> (outcome: TickOutcome)
        requires
            old(self).wf(),
            old(self).metrics.wall_millis <= now_millis < WALL_LIMIT_MILLIS,
        ensures
            final(self).wf(),
            final(self).cpu_times@ == record_all(old(self).cpu_times@, samples@),
            final(self).metrics == (OrderExecutionMetrics {
                time_until_overdraft_stop: tick_time_until_stop(
                    *old(self),
                    record_all(old(self).cpu_times@, samples@),
                    now_millis,
                ),
                ..tick_metrics(*old(self), record_all(old(self).cpu_times@, samples@), now_millis)
            }),
            final(self).overdraft_started_at == tick_overdraft(
                *old(self),
                record_all(old(self).cpu_times@, samples@),
                now_millis,
            ),
            final(self).child_should_die == tick_die(
                *old(self),
                record_all(old(self).cpu_times@, samples@),
                now_millis,
                stop_requested,
            ),
            final(self).termination_cause == tick_cause(
                *old(self),
                record_all(old(self).cpu_times@, samples@),
                now_millis,
                stop_requested,
            ),
            final(self).order_id == old(self).order_id,
            final(self).pricing == old(self).pricing,
            final(self).user_balance_at_start == old(self).user_balance_at_start,
            outcome.publish == tick_metrics(
                *old(self),
                record_all(old(self).cpu_times@, samples@),
                now_millis,
            ),
            outcome.kill == final(self).child_should_die,
            final(self).metrics.cpu_millis >= old(self).metrics.cpu_millis,
            final(self).metrics.processes_forked >= old(self).metrics.processes_forked,
            (old(self).overdraft_started_at is Some ==> final(self).overdraft_started_at == old(
                self,
            ).overdraft_started_at),
    {
        let n: usize = samples.len();
        let mut i: usize = 0;
        proof {
            assert(samples@.take(0) =~= Seq::<(u64, u64)>::empty());
        }
        while i < n
            invariant
                n == samples@.len(),
                0 <= i <= n,
                self.cpu_times.wf(),
                self.cpu_times@ == record_all(old(self).cpu_times@, samples@.take(i as int)),
                total_of(self.cpu_times@) >= total_of(old(self).cpu_times@),
                self.cpu_times@.len() >= old(self).cpu_times@.len(),
                self.metrics == old(self).metrics,
                self.order_id == old(self).order_id,
                self.pricing == old(self).pricing,
                self.user_balance_at_start == old(self).user_balance_at_start,
                self.overdraft_started_at == old(self).overdraft_started_at,
                self.child_should_die == old(self).child_should_die,
                self.termination_cause == old(self).termination_cause,
            decreases n - i,
        {
            let (pid, millis): (u64, u64) = samples[i];
            let ghost pre = self.cpu_times@;
            self.cpu_times.record(pid, millis);
            proof {
                assert(samples@.take(i + 1) =~= samples@.take(i as int).push(samples@[i as int]));
                lemma_record_all_snoc(old(self).cpu_times@, samples@.take(i as int), samples@[i as int]);
                if exists|j: int| 0 <= j < pre.len() && (#[trigger] pre[j]).0 == pid {
                    let j = choose|j: int| 0 <= j < pre.len() && (#[trigger] pre[j]).0 == pid;
                    lemma_total_update(
                        pre,
                        j,
                        (pid, if pre[j].1 >= millis {
                            pre[j].1
                        } else {
                            millis
                        }),
                    );
                } else {
                    lemma_total_push(pre, (pid, millis));
                }
            }
            i = i + 1;
        }
        proof {
            assert(samples@.take(n as int) =~= samples@);
        }

        let cpu_millis: u64 = self.cpu_times.total_millis();
        let forks: u64 = self.cpu_times.count() as u64;
        self.metrics.cpu_millis = cpu_millis;
        self.metrics.wall_millis = now_millis;
        self.metrics.processes_forked = forks;
        let publish: OrderExecutionMetrics = self.metrics;

        let costs = self.metrics.calculate_costs(&self.pricing);
        let total_cost: u128 = costs.grand_total();
        proof {
            assert(total_cost < 0x80000000000000000000000000000000u128);
        }
        if (self.user_balance_at_start as i128) - (total_cost as i128) < 0 {
            if self.overdraft_started_at.is_none() {
                self.overdraft_started_at = Some(now_millis);
            }
        }

        match self.overdraft_started_at {
            Some(start) => {
                let elapsed: u64 = now_millis - start;
                let remaining: i64 = self.pricing.overdraft_millis_allowed as i64 - elapsed as i64;
                self.metrics.time_until_overdraft_stop = Some(remaining);
                if remaining < 0 {
                    if !self.child_should_die {
                        self.child_should_die = true;
                        self.termination_cause = TerminationCause::BalanceKill;
                    }
                }
            },
            None => {},
        }

        if stop_requested {
            if !self.child_should_die {
                self.child_should_die = true;
                self.termination_cause = TerminationCause::UserKill;
            }
        }

        TickOutcome { publish, kill: self.child_should_die }
    }

    /// The terminal status for a child reaped with `exit_code`: the cause
    /// and metrics as this state holds them, and the costs priced exactly
    /// by the cost formula under the pricing snapshot taken at spawn.
    pub fn reap(&self, exit_code: i32) -> (status: JobTerminationStatus)
        ensures
            status == (JobTerminationStatus::ProcessExit {
                exit_code,
                cause: self.termination_cause,
                metrics: self.metrics,
                costs: self.metrics.calculate_costs_spec(self.pricing),
            }),
            status.priced_under(self.pricing),
    {
        JobTerminationStatus::ProcessExit {
            exit_code,
            cause: self.termination_cause,
            metrics: self.metrics,
            costs: self.metrics.calculate_costs(&self.pricing),
        }
    }
}

/// A started overdraft clock is latched: no later tick moves or clears
/// it, whatever the samples, the clock, or the residual say.
pub proof fn lemma_overdraft_latched(
    s: SupervisorState,
    table: Seq<(u64, u64)>,
    now: u64,
)
    requires
        s.overdraft_started_at is Some,
    ensures
        tick_overdraft(s, table, now) == s.overdraft_started_at,
{
}

/// A cause, once a kill has been decided, is never reassigned: a stop
/// raised after a balance kill keeps the balance kill as the cause.
pub proof fn lemma_cause_sticky(
    s: SupervisorState,
    table: Seq<(u64, u64)>,
    now: u64,
    stop: bool,
)
    requires
        s.child_should_die,
    ensures
        tick_cause(s, table, now, stop) == s.termination_cause,
        tick_die(s, table, now, stop),
{
}

/// A raised stop makes the next decided cause `UserKill`, unless a
/// balance kill had already been latched or latches on the same tick.
pub proof fn lemma_stop_becomes_user_kill(
    s: SupervisorState,
    table: Seq<(u64, u64)>,
    now: u64,
)
    requires
        !s.child_should_die,
        !tick_balance_kill(s, table, now),
    ensures
        tick_cause(s, table, now, true) == TerminationCause::UserKill,
        tick_die(s, table, now, true),
{
}

/// The status a supervisor publishes and persists when the account owning
/// the order cannot be found at start.
pub fn account_missing_status() -> (status: JobTerminationStatus)
    ensures
        status matches JobTerminationStatus::AbnormalTermination(reason) && reason@
            == "When the job was preparing, the account associated with the order could not be found"@,
{
    JobTerminationStatus::AbnormalTermination(
        String::from_str(
            "When the job was preparing, the account associated with the order could not be found",
        ),
    )
}

} // verus!
