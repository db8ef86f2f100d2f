//! A bounded-memory classifier for line streams that mix multi-line JSON
//! values with plain text, together with the filters and formatters that
//! decide how each classified record is shown.

pub mod json;
pub mod model;
pub mod buffer;
pub mod laws;
pub mod filter;
pub mod formatter;
pub mod stream;
pub mod cli;
