//! Core of a metered `make` build service.
//!
//! User-submitted build jobs run under a per-order supervisor that samples
//! the CPU time of the whole process subtree, computes a running cost
//! against the owner's balance, enforces user stops and overdraft kills,
//! and produces a durable terminal record.  This crate holds the verified
//! logic of that core: the pricing arithmetic, the supervisor's tick
//! decisions, the manager's registry of live jobs, the subtree sampler's
//! bookkeeping, and the order rows' lifecycle.  The surrounding process
//! (forking the child, reading `/proc`, the database, the HTTP surface)
//! feeds this logic plain values and carries its decisions out.
//!
//! All money amounts are integers in micro-credits; all durations are
//! integers in milliseconds.

pub mod handle;
pub mod manager;
pub mod pow;
pub mod pricing;
pub mod sampler;
pub mod status;
pub mod upload;
pub mod worker;
