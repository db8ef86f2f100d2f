//! How JSON values are written out: compact or indented, with or without
//! color.

use vstd::prelude::*;

use crate::json::{compact_json_of, pretty_json_of, serialized_as, to_compact_json, to_pretty_json};

verus! {

/// Relies on colored_json's `ColoredFormatter::to_colored_json_auto`, around
/// serde_json's compact formatter: compact JSON text, colored where standard
/// output is a terminal and `NO_COLOR` is not set. Color on or off, the same
/// serializer runs over the value, so it fails exactly where
/// `serde_json::to_string` fails.
#[verifier::external_body]
fn to_colored_compact_json(value: &serde_json::Value) -> (r: Result<String, serde_json::Error>)
    ensures
        r is Ok <==> compact_json_of(*value) is Some,
{
    colored_json::ColoredFormatter::new(serde_json::ser::CompactFormatter {}).to_colored_json_auto(
        value,
    )
}

/// Relies on `colored_json::to_colored_json_auto`: indented JSON text, colored
/// where standard output is a terminal and `NO_COLOR` is not set. Color on or
/// off, the same serializer runs over the value, so it fails exactly where
/// `serde_json::to_string_pretty` fails.
#[verifier::external_body]
fn to_colored_pretty_json(value: &serde_json::Value) -> (r: Result<String, serde_json::Error>)
    ensures
        r is Ok <==> pretty_json_of(*value) is Some,
{
    colored_json::to_colored_json_auto(value)
}

/// A way of writing a JSON value as text.
pub trait Formatter {
    fn format_json(&self, value: &serde_json::Value) -> Result<String, serde_json::Error>;
}

/// Compact JSON, colored on a terminal.
pub struct ColoredCompactFormatter;

impl ColoredCompactFormatter {
    pub fn new() -> Self {
        Self
    }
}

impl Formatter for ColoredCompactFormatter {
    fn format_json(&self, value: &serde_json::Value) -> (r: Result<String, serde_json::Error>)
        ensures
            r is Ok <==> compact_json_of(*value) is Some,
    {
        to_colored_compact_json(value)
    }
}

/// Indented JSON, colored on a terminal.
pub struct ColoredPrettyFormatter;

impl ColoredPrettyFormatter {
    pub fn new() -> Self {
        Self
    }
}

impl Formatter for ColoredPrettyFormatter {
    fn format_json(&self, value: &serde_json::Value) -> (r: Result<String, serde_json::Error>)
        ensures
            r is Ok <==> pretty_json_of(*value) is Some,
    {
        to_colored_pretty_json(value)
    }
}

/// Compact JSON without color.
pub struct PlainCompactFormatter;

impl PlainCompactFormatter {
    pub fn new() -> Self {
        Self
    }
}

impl Formatter for PlainCompactFormatter {
    fn format_json(&self, value: &serde_json::Value) -> (r: Result<String, serde_json::Error>)
        ensures
            serialized_as(r, compact_json_of(*value)),
    {
        to_compact_json(value)
    }
}

/// Indented JSON without color.
pub struct PlainPrettyFormatter;

impl PlainPrettyFormatter {
    pub fn new() -> Self {
        Self
    }
}

impl Formatter for PlainPrettyFormatter {
    fn format_json(&self, value: &serde_json::Value) -> (r: Result<String, serde_json::Error>)
        ensures
            serialized_as(r, pretty_json_of(*value)),
    {
        to_pretty_json(value)
    }
}

/// The formatter in use: one of the four above.
pub enum JsonFormatter {
    ColoredCompact(ColoredCompactFormatter),
    ColoredPretty(ColoredPrettyFormatter),
    PlainCompact(PlainCompactFormatter),
    PlainPretty(PlainPrettyFormatter),
}

impl JsonFormatter {
    /// Whether `r` is what the formatter writes for `value`: serde_json's
    /// compact or indented text for the plain formatters. The colored ones
    /// choose colors by the terminal, so of them only when they fail is fixed:
    /// where serde_json's compact or indented serializer fails.
    pub open spec fn writes(&self, value: serde_json::Value, r: Result<String, serde_json::Error>) -> bool {
        match self {
            JsonFormatter::PlainCompact(_) => serialized_as(r, compact_json_of(value)),
            JsonFormatter::PlainPretty(_) => serialized_as(r, pretty_json_of(value)),
            JsonFormatter::ColoredCompact(_) => r is Ok <==> compact_json_of(value) is Some,
            JsonFormatter::ColoredPretty(_) => r is Ok <==> pretty_json_of(value) is Some,
        }
    }

    /// The formatter that the options ask for: compact or indented, and
    /// without color if `no_color`.
    pub fn from_args(compact: bool, no_color: bool) -> (r: Self)
        ensures
            r is PlainCompact <==> compact && no_color,
            r is ColoredCompact <==> compact && !no_color,
            r is PlainPretty <==> !compact && no_color,
            r is ColoredPretty <==> !compact && !no_color,
    {
        match (compact, no_color) {
            (true, true) => JsonFormatter::PlainCompact(PlainCompactFormatter::new()),
            (true, false) => JsonFormatter::ColoredCompact(ColoredCompactFormatter::new()),
            (false, true) => JsonFormatter::PlainPretty(PlainPrettyFormatter::new()),
            (false, false) => JsonFormatter::ColoredPretty(ColoredPrettyFormatter::new()),
        }
    }
}

impl Formatter for JsonFormatter {
    fn format_json(&self, value: &serde_json::Value) -> (r: Result<String, serde_json::Error>)
        ensures
            self.writes(*value, r),
    {
        match self {
            JsonFormatter::ColoredCompact(f) => f.format_json(value),
            JsonFormatter::ColoredPretty(f) => f.format_json(value),
            JsonFormatter::PlainCompact(f) => f.format_json(value),
            JsonFormatter::PlainPretty(f) => f.format_json(value),
        }
    }
}

} // verus!
