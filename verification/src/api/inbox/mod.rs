//! Subscriber plane: the merged two-source inbox.
//!
//! A subscriber's inbox merges direct notifications with the environment's
//! broadcasts. Read and archive state is a watermark per subscriber plus
//! per-item exceptions that outrank it.

pub mod actions;
pub mod counts;
pub mod cursor;
pub mod effects;
pub mod etag;
pub mod filters;
pub mod flags;
pub mod history;
pub mod items;
pub mod laws;
pub mod list;
pub mod outcomes;
pub mod pages;
pub mod reading;
pub mod rows;
pub mod shown;
pub mod tallies;
pub mod validators;
pub mod views;
pub mod walks;
