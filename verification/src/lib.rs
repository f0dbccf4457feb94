//! Line diffs, snapshot-test bookkeeping and check evaluation, verified with Verus.
//!
//! The library computes everything that the command-line programs show or decide;
//! reading files, running processes and writing to the terminal stay outside it.

pub mod text;
pub mod diff;
pub mod paths;
pub mod runner;
pub mod snapshot;
pub mod cli;
