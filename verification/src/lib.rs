//! Upload pipeline for batches of digital-asset files: cost estimation, the
//! funding gate, the bounded-parallelism upload scheduler and the link cache
//! that records what has been uploaded.
//!
//! The library decides and computes; its caller reads files, talks to the
//! network and runs the uploads. An upload goes through these steps:
//!
//! 1. [`plan::pending_indices`] picks the assets whose files have no link
//!    yet, and [`plan::plan_uploads`] turns them into upload tasks.
//! 2. [`estimate::total_size`] tells how many bytes the batch is billed for.
//!    With the price of that many bytes, [`funding::FundingGate`] says
//!    whether a transfer is needed and follows the balance until the upload
//!    is paid for.
//! 3. [`scheduler::Scheduler`] hands out the tasks, a bounded number at a
//!    time, records every result in the [`cache::Cache`] and asks for
//!    checkpoints of the cache. What it does is stated over the states and
//!    steps of [`run`].
//!
//! [`bundlr`] and [`answers`] hold what is known of the storage network: its
//! nodes, its endpoints and what its answers say. [`paths`] and [`decimal`]
//! read file paths and numbers. [`candy_machine`] holds values of the
//! on-chain program that the upload works for.

pub mod answers;
pub mod bundlr;
pub mod cache;
pub mod candy_machine;
pub mod decimal;
pub mod estimate;
pub mod funding;
pub mod paths;
pub mod plan;
pub mod run;
pub mod scheduler;
pub mod task;
