//! Non-thermal electron beams.

pub mod detection;
