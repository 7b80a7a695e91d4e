//! The synthetic light-client update benchmark of SP1 Helios.
//!
//! A run generates a chain of light-client updates, replays it natively and inside the zkVM,
//! proves the replay a number of times and appends one line of measurements to a CSV report.
//! This crate holds what the benchmark decides and computes; starting provers, reading files and
//! talking to the consensus client is left to the program around it.

pub mod course;
pub mod fixture;
pub mod light_client;
pub mod mode;
pub mod outputs;
pub mod proof_mode;
pub mod report;
pub mod session;
pub mod spans;
pub mod text;
