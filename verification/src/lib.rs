//! A fixed-size worker pool for batches of independent work items, and the
//! decisions of the RRD migration that drives it.
//!
//! The pool in [`pool`] holds the work queue of [`queue`], the state of every
//! worker and the completion state of [`completion`], and decides every step;
//! it runs no thread itself. [`model`] is its mathematical state with the transitions
//! and the invariant, [`laws`] states what holds of every pool. [`plan`] and
//! [`args`] hold what the migration decides per run and per file.

pub mod args;
pub mod completion;
pub mod laws;
pub mod model;
pub mod plan;
pub mod pool;
pub mod queue;
