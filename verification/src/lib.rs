//! Tracing and integration engine for field lines, corks and electron beams
//! in three-dimensional atmosphere snapshots.

pub mod cli;
pub mod ebeam;
pub mod field;
pub mod geometry;
pub mod grid;
pub mod interpolation;
pub mod io;
pub mod num;
pub mod seeding;
pub mod tracing;
