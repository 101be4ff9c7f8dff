//! The HTTP surface: routes and planes, readiness, and what reaches the log.

pub mod readiness;
pub mod routes;
pub mod scrub;
