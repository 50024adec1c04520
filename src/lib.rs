//! Rate-controlled load generation: parsing of rate and run length
//! expressions, the choice of each worker's pace, and the decisions that
//! drive workers, the throughput reporter and their common shutdown.

pub mod action;
pub mod rate;
pub mod reporter;
pub mod text;
pub mod time;
pub mod worker;
