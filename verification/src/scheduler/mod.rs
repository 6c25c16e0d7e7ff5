//! The pairing of submitted jobs with idle workers.
//!
//! The pool is kept here as a state machine without threads. Whoever runs
//! the worker threads tells it what happens, a job submitted or a worker
//! idle, and carries out the assignments that it decides.

pub mod scheduler;
pub mod thread_pool;

pub use scheduler::Scheduler;
pub use thread_pool::ThreadPool;
