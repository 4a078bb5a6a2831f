//! Command line values for actions related to electron beams.

pub mod simulate;
