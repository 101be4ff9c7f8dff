//! The API: the subscriber's inbox and the shared error responses.

pub mod contract;
pub mod inbox;
