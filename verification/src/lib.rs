//! Verified core of a per-process network bandwidth monitor: the store of
//! upload/download series, the readers of its record files, the queries the
//! front end makes, the throttling command plans and the text reports.

pub mod text;
pub mod time;
pub mod series;
pub mod collector;
pub mod query;
pub mod throttling;
pub mod report;
pub mod records;
pub mod laws;
