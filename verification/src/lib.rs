//! Verified core of a file segmentation utility: a splitter that cuts a byte
//! stream into fixed-size numbered parts, a merger that concatenates the parts
//! back in index order, and the shared naming convention that ties the two
//! together. File system access lives outside this crate; the functions here
//! work on plain byte values and are verified against a sequence model.

pub mod cli;
pub mod config;
pub mod error;
pub mod merger;
pub mod naming;
pub mod parts;
pub mod splitter;
pub mod writer;
