//! Decoding of the values given on the command line.
//!
//! The functions here take the strings that the argument parser hands
//! out and turn them into the values that the rest of the library works
//! with. Where a string cannot be decoded they return the message that the
//! program prints before it exits.

pub mod ebeam;
pub mod snapshot;
pub mod utils;
