//! The scheduling core of a fixed-size worker pool.
//!
//! A pool owns a FIFO queue of jobs, an open/closed flag for submissions and
//! one state per worker. Worker threads, locking and the running of jobs live
//! outside this crate: they call into a `Dispatcher` under a lock and act on the
//! `Instruction` it returns. Every decision of the pool is made here and is
//! verified against the model in `model`.

pub mod model;
pub mod dispatcher;
pub mod guarantees;
