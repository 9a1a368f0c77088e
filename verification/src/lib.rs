//! Vote tallies for a red/blue catalogue: the state behind the terminal and
//! web front ends, with its selection cursor, per-item aggregates, running
//! net-score history and the GF(3) balance of all votes.

pub mod trit;
pub mod types;
pub mod tally;
pub mod history;
pub mod app;
pub mod osc;
pub mod laws;
pub mod input;
pub mod bins;
