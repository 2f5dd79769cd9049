//! Converts tabular sheet data into JSON documents, one per sheet.
//!
//! The first row of a sheet is its header row; every later row becomes a
//! record that pairs header names with cell values positionally. Records are
//! rendered as a pretty-printed JSON document with a single `"Markers"` field
//! holding the record list. Record keys appear in lexicographic order, not in
//! column order.

pub mod convert;
pub mod laws;
pub mod model;
pub mod naming;
pub mod render;
pub mod record;
pub mod strorder;
