//! Detection of reconnection sites.

pub mod manual;
