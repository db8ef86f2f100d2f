//! The options of the command-line tool.

use vstd::prelude::*;

verus! {

/// The command-line options: how many lines to buffer for multi-line JSON,
/// an optional regex filter and its case sensitivity, whether to show JSON
/// only, and whether to write JSON compactly.
pub struct JlifArgs {
    pub max_lines: usize,
    pub filter: Option<String>,
    pub case_sensitive: bool,
    pub json_only: bool,
    pub compact: bool,
}

} // verus!
