//! Pricing and assembling orders.

pub mod builder;
pub mod price;
pub mod rounding;
