//! A batch of echo requests, fanned out and joined: each reply's echoed value
//! is tallied, and the values that came back more than once are reported as
//! an ascending list.
//!
//! The library holds the decisions and the arithmetic of one batch; sending
//! the requests and awaiting the replies is left to the caller.

pub mod ascending;
pub mod batch;
pub mod exchange;
pub mod outcome;
pub mod query;
pub mod render;
pub mod tally;
pub mod task;
