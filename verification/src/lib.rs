//! Order construction and market-price computation for a prediction-market
//! exchange, with machine-checked contracts.

pub mod client;
pub mod config;
pub mod decimal;
pub mod error;
pub mod orders;
pub mod primitives;
pub mod request;
pub mod signing;
pub mod text;
pub mod time;
pub mod types;
pub mod utils;
