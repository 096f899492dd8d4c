//! Parameters of requests.

pub mod pagination;
