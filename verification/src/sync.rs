//! The rate-limited producer/consumer pipeline, as the decision core a
//! timer-driven driver runs: a bounded FIFO queue whose capacity is the
//! rate limit, a broadcast shutdown flag, and the tick arithmetic that
//! bounds how often either role runs.

pub mod pipeline;
