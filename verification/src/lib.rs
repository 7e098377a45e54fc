//! Data-mining utilities for the ENEM / school census micro-data: CSV line
//! handling, column headers, data items and the small pieces of arithmetic
//! and naming logic that the processing pipeline relies on.

pub mod data;
pub mod text;
pub mod types;
pub mod utils;
