//! Per-connection work scheduling for a controller that hands out the work
//! units of many jobs to many worker connections.
//!
//! Each connection keeps its own record of the jobs it has been told about,
//! with an energy (a cost debt) per job; `scheduler::choose_work` picks what
//! the connection does next, `reader::apply_update` folds a worker's report
//! back into the records, and `cleanup::disconnect_targets` names the jobs
//! whose owners must hear of it when the connection ends.
pub mod cleanup;
pub mod connection;
pub mod energy;
pub mod laws;
pub mod reader;
pub mod registry;
pub mod scheduler;
