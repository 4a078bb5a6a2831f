//! Generation of the positions where tracing starts.

pub mod manual;
