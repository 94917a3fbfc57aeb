//! Decision logic of a daemon that watches GitHub notifications and runs a
//! review command on the pull requests that wait for their user.
//!
//! The crate computes; the program around it reads, writes, sends and waits.

pub mod text;
pub mod order;
pub mod number;
pub mod time;
pub mod model;
pub mod table;
pub mod paths;
pub mod db;
pub mod spans;
pub mod cli;
pub mod process;
pub mod runner;
pub mod git;
pub mod github;
pub mod daemon;
