//! The steps around the classifier that a stream driver takes: preparing a
//! line that was read, and turning a classified record into the text to write.

use vstd::prelude::*;

use crate::buffer::BufferResult;
use crate::filter::{json_search_text, Filter, FilterInput, OutputFilter};
use crate::formatter::{Formatter, JsonFormatter};

verus! {

/// A line as read, without its final `\n`, and without the `\r` before it.
pub open spec fn without_line_ending(s: Seq<char>) -> Seq<char> {
    if s.len() > 0 && s.last() == '\n' {
        let t = s.drop_last();
        if t.len() > 0 && t.last() == '\r' {
            t.drop_last()
        } else {
            t
        }
    } else {
        s
    }
}

/// The line to submit for a line as read: its line ending removed.
pub fn strip_line_ending(line: &str) -> (r: String)
    ensures
        r@ == without_line_ending(line@),
{
    let n = line.unicode_len();
    if n > 0 && line.get_char(n - 1) == '\n' {
        let mut m = n - 1;
        if m > 0 && line.get_char(m - 1) == '\r' {
            m = m - 1;
        }
        let r = line.substring_char(0, m).to_owned();
        assert(r@ =~= without_line_ending(line@));
        r
    } else {
        line.to_owned()
    }
}

/// The text of a record that a regex filter searches.
pub open spec fn record_search_text(record: BufferResult) -> Seq<char> {
    match record {
        BufferResult::Json(v) => json_search_text(v),
        BufferResult::Text(t) => t@,
        BufferResult::Incomplete(_) => Seq::empty(),
    }
}

/// Whether the filter shows a record that is ready for output.
pub open spec fn record_shown(filter: OutputFilter, record: BufferResult) -> bool {
    !(record is Incomplete) && filter.shows(record is Json, record_search_text(record))
}

/// The text to write for a record: `None` for a record that waits for more
/// input or that the filter rejects; a line of text as it is; a JSON value as
/// the formatter writes it. Only formatting a JSON value that is shown can
/// fail.
pub fn render_record(filter: &OutputFilter, formatter: &JsonFormatter, record: &BufferResult) -> (r:
    Result<Option<String>, serde_json::Error>)
    ensures
        !record_shown(*filter, *record) ==> r == Ok::<Option<String>, serde_json::Error>(None),
        record_shown(*filter, *record) && *record is Text ==> (r matches Ok(Some(s)) && s@
            == record->Text_0@),
        record_shown(*filter, *record) && *record is Json ==> match r {
            Ok(Some(s)) => formatter.writes(record->Json_0, Ok(s)),
            Ok(None) => false,
            Err(e) => formatter.writes(record->Json_0, Err(e)),
        },
        r is Err ==> record_shown(*filter, *record) && *record is Json,
{
    match FilterInput::try_from(record) {
        Err(_) => Ok(None),
        Ok(input) => {
            if !filter.matches(&input) {
                return Ok(None);
            }
            match record {
                BufferResult::Json(value) => match formatter.format_json(value) {
                    Ok(text) => Ok(Some(text)),
                    Err(e) => Err(e),
                },
                BufferResult::Text(text) => Ok(Some(text.clone())),
                BufferResult::Incomplete(_) => Ok(None),
            }
        },
    }
}

} // verus!
