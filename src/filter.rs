//! Filters over classified records: which JSON values and text lines are
//! shown. A filter passes everything, keeps what a regular expression finds a
//! match in, or keeps JSON values only.

use vstd::prelude::*;

use crate::buffer::BufferResult;
use crate::json::{compact_json_of, to_compact_json};

verus! {

#[verifier::external_type_specification]
#[verifier::external_body]
pub struct ExRegex(regex::Regex);

#[verifier::external_type_specification]
#[verifier::external_body]
pub struct ExRegexError(regex::Error);

/// Whether `regex::Regex::new` accepts the pattern.
pub uninterp spec fn regex_compiles(pattern: Seq<char>) -> bool;

/// The pattern that a regex was compiled from, as `regex::Regex::as_str`
/// gives it back.
pub uninterp spec fn regex_source(regex: regex::Regex) -> Seq<char>;

/// Whether a regex that `regex::Regex::new` compiled from `pattern`, with the
/// default options, finds a match somewhere in `text`.
pub uninterp spec fn regex_finds(pattern: Seq<char>, text: Seq<char>) -> bool;

/// What `regex::Regex::is_match` gives for `regex` on `text`.
pub uninterp spec fn regex_matches(regex: regex::Regex, text: Seq<char>) -> bool;

/// Relies on `regex::Regex::new`: it compiles the pattern, with the default
/// options, or reports why it cannot; which of the two depends on the pattern
/// alone. The regex keeps the pattern, and matches as every regex compiled
/// from that pattern with the default options does.
#[verifier::external_body]
fn compile_regex(pattern: &str) -> (r: Result<regex::Regex, regex::Error>)
    ensures
        r is Ok <==> regex_compiles(pattern@),
        r matches Ok(regex) ==> regex_source(regex) == pattern@,
        r matches Ok(regex) ==> forall|text: Seq<char>|
            #[trigger] regex_matches(regex, text) == regex_finds(pattern@, text),
{
    regex::Regex::new(pattern)
}

/// Relies on `regex::Regex::is_match`: whether the regex matches somewhere in
/// the text.
#[verifier::external_body]
fn regex_is_match(regex: &regex::Regex, text: &str) -> (r: bool)
    ensures
        r == regex_matches(*regex, text@),
{
    regex.is_match(text)
}

/// An error in building a filter.
#[derive(Debug)]
pub enum FormatterError {
    InvalidRegex { pattern: String, source: regex::Error },
}

/// An error in turning a record into filter input.
#[derive(Debug)]
pub enum ConversionError {
    IncompleteResult,
}

/// What a filter looks at: a record that is ready for output. Records that
/// still wait for input cannot be expressed here.
#[derive(Debug)]
pub enum FilterInput<'a> {
    Json(&'a serde_json::Value),
    Text(&'a str),
}

/// The text of a JSON value that a regex searches: its compact JSON text, or
/// nothing where serializing fails.
pub open spec fn json_search_text(value: serde_json::Value) -> Seq<char> {
    match compact_json_of(value) {
        Some(t) => t,
        None => Seq::empty(),
    }
}

/// The text of an input that a regex searches.
pub open spec fn search_text(input: FilterInput) -> Seq<char> {
    match input {
        FilterInput::Json(v) => json_search_text(*v),
        FilterInput::Text(t) => t@,
    }
}

/// Whether `input` shows the record `result`: the same JSON value, or the same
/// text.
pub open spec fn shows_record(input: FilterInput, result: BufferResult) -> bool {
    match (input, result) {
        (FilterInput::Json(v), BufferResult::Json(w)) => *v == w,
        (FilterInput::Text(t), BufferResult::Text(s)) => t@ == s@,
        _ => false,
    }
}

impl<'a> FilterInput<'a> {
    /// The filter input for a record that is ready for output; an error for
    /// one that still waits for input.
    pub fn try_from(result: &'a BufferResult) -> (r: Result<FilterInput<'a>, ConversionError>)
        ensures
            r is Err <==> result is Incomplete,
            r matches Ok(input) ==> shows_record(input, *result),
    {
        match result {
            BufferResult::Json(value) => Ok(FilterInput::Json(value)),
            BufferResult::Text(text) => Ok(FilterInput::Text(text.as_str())),
            BufferResult::Incomplete(_) => Err(ConversionError::IncompleteResult),
        }
    }
}

/// A test on output content.
pub trait Filter {
    /// Whether the content is shown.
    fn matches(&self, input: &FilterInput) -> bool;

    /// Whether the filter can suppress anything at all.
    fn is_active(&self) -> bool;
}

/// The filter that shows everything.
#[derive(Debug, Clone, Copy)]
pub struct NoFilter;

impl Filter for NoFilter {
    fn matches(&self, _input: &FilterInput) -> (r: bool)
        ensures
            r,
    {
        true
    }

    fn is_active(&self) -> (r: bool)
        ensures
            !r,
    {
        false
    }
}

/// The filter that shows JSON values only, those that its inner filter shows.
#[derive(Debug)]
pub struct JsonOnlyFilter {
    inner_filter: Box<OutputFilter>,
}

impl JsonOnlyFilter {
    /// The filter on JSON values only, around `inner_filter`.
    pub fn new(inner_filter: OutputFilter) -> (r: Self)
        ensures
            r.inner() == inner_filter,
    {
        Self { inner_filter: Box::new(inner_filter) }
    }

    /// The filter that JSON values must also pass.
    pub closed spec fn inner(&self) -> OutputFilter {
        *self.inner_filter
    }
}

impl Filter for JsonOnlyFilter {
    fn matches(&self, input: &FilterInput) -> (r: bool)
        ensures
            r == (*input is Json && self.inner().shows(true, search_text(*input))),
    {
        match input {
            FilterInput::Json(_) => self.inner_filter.admits(input),
            _ => false,
        }
    }

    fn is_active(&self) -> (r: bool)
        ensures
            r,
    {
        true
    }
}

/// The filter that shows content in which a regular expression finds a
/// match. A JSON value is searched in its compact text.
#[derive(Debug)]
pub struct RegexFilter {
    regex: regex::Regex,
}

impl RegexFilter {
    /// The regex was compiled from its pattern with the default options.
    #[verifier::type_invariant]
    spec fn compiled_from_source(&self) -> bool {
        forall|text: Seq<char>|
            #[trigger] regex_matches(self.regex, text) == regex_finds(regex_source(self.regex), text)
    }
}

/// The pattern that is compiled: case-insensitive unless asked otherwise.
pub open spec fn effective_pattern(pattern: Seq<char>, case_sensitive: bool) -> Seq<char> {
    if case_sensitive {
        pattern
    } else {
        seq!['(', '?', 'i', ')'] + pattern
    }
}

impl RegexFilter {
    /// A filter on `pattern`, matched regardless of case unless
    /// `case_sensitive`. Fails, naming the pattern, where the pattern does not
    /// compile.
    pub fn new(pattern: String, case_sensitive: bool) -> (r: Result<Self, FormatterError>)
        ensures
            r is Ok <==> regex_compiles(effective_pattern(pattern@, case_sensitive)),
            r matches Err(FormatterError::InvalidRegex { pattern: p, .. }) ==> p@ == pattern@,
            r matches Ok(f) ==> f.pattern() == effective_pattern(pattern@, case_sensitive),
    {
        let regex_pattern = if case_sensitive {
            pattern.clone()
        } else {
            let mut p = String::from_str("(?i)");
            p.append(pattern.as_str());
            proof {
                reveal_strlit("(?i)");
                assert(p@ =~= effective_pattern(pattern@, case_sensitive));
            }
            p
        };
        match compile_regex(regex_pattern.as_str()) {
            Ok(regex) => Ok(Self { regex }),
            Err(source) => Err(FormatterError::InvalidRegex { pattern, source }),
        }
    }

    /// The pattern that the filter's regex was compiled from.
    pub closed spec fn pattern(&self) -> Seq<char> {
        regex_source(self.regex)
    }

    /// Whether the regex finds a match in the content.
    fn finds(&self, input: &FilterInput) -> (r: bool)
        ensures
            r == regex_finds(self.pattern(), search_text(*input)),
    {
        proof {
            use_type_invariant(self);
        }
        match input {
            FilterInput::Json(value) => {
                let content = match to_compact_json(value) {
                    Ok(text) => text,
                    Err(_) => String::new(),
                };
                regex_is_match(&self.regex, content.as_str())
            },
            FilterInput::Text(text) => regex_is_match(&self.regex, text),
        }
    }
}

impl Filter for RegexFilter {
    fn matches(&self, input: &FilterInput) -> (r: bool)
        ensures
            r == regex_finds(self.pattern(), search_text(*input)),
    {
        self.finds(input)
    }

    fn is_active(&self) -> (r: bool)
        ensures
            r,
    {
        true
    }
}

/// The filter in use: one of the filters above.
#[derive(Debug)]
pub enum OutputFilter {
    Unfiltered(NoFilter),
    Regex(RegexFilter),
    JsonOnly(JsonOnlyFilter),
}

impl OutputFilter {
    /// Whether the filter shows content that is JSON or not, and whose
    /// searched text is `text`.
    pub open spec fn shows(&self, is_json: bool, text: Seq<char>) -> bool
        decreases self,
    {
        match self {
            OutputFilter::Unfiltered(_) => true,
            OutputFilter::Regex(f) => regex_finds(f.pattern(), text),
            OutputFilter::JsonOnly(f) => is_json && f.inner().shows(true, text),
        }
    }

    /// Whether the filter can suppress anything.
    pub open spec fn can_suppress(&self) -> bool {
        !(self is Unfiltered)
    }

    fn admits(&self, input: &FilterInput) -> (r: bool)
        ensures
            r == self.shows(*input is Json, search_text(*input)),
        decreases self,
    {
        match self {
            OutputFilter::Unfiltered(_) => true,
            OutputFilter::Regex(f) => f.finds(input),
            OutputFilter::JsonOnly(f) => match input {
                FilterInput::Json(_) => f.inner_filter.admits(input),
                _ => false,
            },
        }
    }

    /// The filter that the command-line options ask for: a regex filter on
    /// `pattern` if there is one, else one that passes everything; wrapped so
    /// that JSON values only are shown if `json_only`. Fails where the
    /// pattern does not compile.
    pub fn from_args(pattern: Option<String>, case_sensitive: bool, json_only: bool) -> (r: Result<
        Self,
        FormatterError,
    >)
        ensures
            r is Err <==> (pattern matches Some(p) && !regex_compiles(
                effective_pattern(p@, case_sensitive),
            )),
            r matches Err(FormatterError::InvalidRegex { pattern: p, .. }) ==> p@ == pattern->0@,
            r matches Ok(f) ==> (f is JsonOnly <==> json_only),
            r matches Ok(f) ==> f.can_suppress() == (json_only || pattern is Some),
            r matches Ok(f) ==> forall|is_json: bool, text: Seq<char>|
                #[trigger] f.shows(is_json, text) == ((!json_only || is_json) && (pattern matches Some(
                    p,
                ) ==> regex_finds(effective_pattern(p@, case_sensitive), text))),
    {
        let base_filter = match pattern {
            Some(pattern_str) => {
                let regex_filter = RegexFilter::new(pattern_str, case_sensitive)?;
                OutputFilter::Regex(regex_filter)
            },
            None => OutputFilter::Unfiltered(NoFilter),
        };
        if json_only {
            let f = OutputFilter::JsonOnly(JsonOnlyFilter::new(base_filter));
            assert(forall|is_json: bool, text: Seq<char>| #[trigger] f.shows(is_json, text)
                == (is_json && base_filter.shows(true, text)));
            assert(forall|is_json: bool, text: Seq<char>| #[trigger] base_filter.shows(is_json, text)
                == base_filter.shows(true, text));
            Ok(f)
        } else {
            Ok(base_filter)
        }
    }
}

impl Filter for OutputFilter {
    fn matches(&self, input: &FilterInput) -> (r: bool)
        ensures
            r == self.shows(*input is Json, search_text(*input)),
    {
        self.admits(input)
    }

    fn is_active(&self) -> (r: bool)
        ensures
            r == self.can_suppress(),
    {
        match self {
            OutputFilter::Unfiltered(f) => f.is_active(),
            OutputFilter::Regex(f) => f.is_active(),
            OutputFilter::JsonOnly(f) => f.is_active(),
        }
    }
}

} // verus!
