//! A fixed-size worker pool fed by a connection acceptor.
//!
//! The library holds the decisions: a FIFO job queue that can be closed,
//! the lifecycle of each worker, the pool's submission and shutdown protocol,
//! the acceptor's reaction to each poll, and the routing and framing of a
//! response. Threads, sockets and signals are driven by whoever runs it.
mod acceptor;
mod http;
mod pool;
mod queue;

pub use acceptor::{AcceptError, AcceptEvent, AcceptorAction, acceptor_step};
pub use http::{Page, Route, Status, frame_response, route};
pub use pool::{
    PoolView, ThreadPool, ThreadPoolBuildError, WorkerState, WorkerStep, count_state,
    lemma_all_jobs_run_once, lemma_busy_workers_bounded, lemma_execute_after_shutdown,
    lemma_shutdown_complete, lemma_shutdown_progress, lemma_worker_survives_job,
};
pub use queue::{JobQueue, Received};
