//! Result model of a transaction execution engine: per-transaction results,
//! the running batch state that folds them, block and batch sealing, and the
//! canonical data-availability payload of a sealed batch.

pub mod bytes;
pub mod statistic;
pub mod config;
pub mod execution_result;
pub mod execution_state;
pub mod pubdata;
pub mod l2_block;
pub mod finished_l1batch;
