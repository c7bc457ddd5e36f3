//! Tabular ingestion and loading pipeline for spreadsheet data.
//!
//! The crate takes an already-decoded cell grid (one `Cell` per spreadsheet
//! cell), normalizes headers into unique identifier-safe column names, infers
//! per-column types, computes column statistics, materializes a typed columnar
//! frame, cleans it, and loads it into an embedded relational store through a
//! batched, transactional loader with a bounded cache of loaded tables.

use vstd::prelude::*;

pub mod agent;
pub mod analyzer;
pub mod api;
pub mod cells;
pub mod config;
pub mod dates;
pub mod db;
pub mod error;
pub mod frame;
pub mod headers;
pub mod infer;
pub mod loader;
pub mod processor;
pub mod stats;
pub mod text;

verus! {

/// Number of raw sample values kept per column in an analysis report.
pub const SAMPLE_VALUES_CAP: usize = 3;

/// Number of raw sample rows kept in an analysis report.
pub const SAMPLE_ROWS_CAP: usize = 5;

/// Number of leading values inspected when inferring a column's type.
pub const TYPE_DETECTION_ROWS: usize = 100;

/// Number of rows of a sheet taken into the analysis window.
pub const ROW_WINDOW: usize = 1000;

/// Number of rows inserted per batch while loading a table.
pub const BATCH_SIZE: usize = 300;

/// Greatest number of tables the loader keeps cached.
pub const CACHE_CAPACITY: usize = 100;

/// Seconds a cached table stays visible after insertion.
pub const CACHE_TTL_SECONDS: u64 = 3600;

} // verus!
