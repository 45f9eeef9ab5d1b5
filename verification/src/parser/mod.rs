//! CSV ingestion with format auto-detection.

pub mod fields;
pub mod header;
pub mod numbers;
pub mod dates;
pub mod columns;
pub mod table;
pub mod rows;
pub mod ingest;

pub use fields::Field;
