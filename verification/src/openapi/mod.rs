//! The API document: its fixed parts, and its export in an older dialect.

pub mod conversion;
pub mod dialect;
pub mod document;
pub mod export;
pub mod laws;
pub mod yaml;
