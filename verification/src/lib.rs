//! Connection-admission core of a small web server.
//!
//! The crate holds the decisions of a non-blocking accept loop: a
//! wraparound-safe tick clock, a smoothed arrival-rate estimator, the
//! controller that turns the estimate into a per-task batch size, the FIFO
//! queue that hands accepted connections to worker tasks, and the step
//! function of the loop itself. Sockets, clocks, locks and threads stay with
//! the caller, which feeds the step function plain values and carries out
//! what it returns.

pub mod acceptor;
pub mod batch;
pub mod pool;
pub mod queue;
pub mod rate;
pub mod tick;
pub mod worker;
