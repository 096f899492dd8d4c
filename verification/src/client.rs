//! Where the public endpoints are found.

pub mod data;
pub mod gamma;
