//! The inbox server's logic, verified.

#![allow(unused_imports)]

pub mod api;
pub mod encoding;
pub mod error;
pub mod http;
pub mod ids;
pub mod openapi;
pub mod outside;
pub mod tally;
pub mod text;
