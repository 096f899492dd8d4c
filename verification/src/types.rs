//! The data that crosses the library's boundary.

pub mod enums;
pub mod market;
pub mod order;
pub mod serde_helpers;
pub mod trade;
pub mod websocket;
