//! Interpolation of field values between the points of a grid.

pub mod poly_fit;
