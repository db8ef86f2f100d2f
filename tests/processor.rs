use jlif::buffer::{BufferResult, LineBuffer};
use jlif::filter::{NoFilter, OutputFilter};
use jlif::formatter::{Formatter, JsonFormatter};
use jlif::stream::{render_record, strip_line_ending};

/// Runs the whole stream through the classifier, the filter and the
/// formatter, the way the command-line tool does, and returns what it writes.
fn process(input: &str, max_lines: usize, filter: OutputFilter, formatter: JsonFormatter) -> String {
    let mut buffer = LineBuffer::new(max_lines);
    let mut output = String::new();
    let mut emit = |records: Vec<BufferResult>, output: &mut String| {
        for record in &records {
            if let Some(text) = render_record(&filter, &formatter, record).unwrap() {
                output.push_str(&text);
                output.push('\n');
            }
        }
    };
    for raw in input.split_inclusive('\n') {
        let records = buffer.add_line(strip_line_ending(raw));
        emit(records, &mut output);
    }
    let records = buffer.drain();
    emit(records, &mut output);
    output
}

fn plain_compact() -> JsonFormatter {
    JsonFormatter::from_args(true, true)
}

#[test]
fn test_process_mixed_content() {
    let input = r#"Regular text line
{"valid": "json", "number": 42}
Another text line
{
  "multiline": "json"
}
Final text line"#;

    let output_str = process(input, 10, OutputFilter::Unfiltered(NoFilter), plain_compact());
    let lines: Vec<&str> = output_str.trim().split('\n').collect();

    assert_eq!(
        lines,
        vec![
            "Regular text line",
            r#"{"valid":"json","number":42}"#,
            "Another text line",
            r#"{"multiline":"json"}"#,
            "Final text line"
        ]
    );
}

#[test]
fn test_process_incomplete_json_at_eof() {
    let input = r#"Complete line
{
  "incomplete": "json without closing"#;

    let output_str = process(input, 10, OutputFilter::Unfiltered(NoFilter), plain_compact());
    let lines: Vec<&str> = output_str.trim().split('\n').collect();

    assert_eq!(
        lines,
        vec![
            "Complete line",
            "{",
            r#"  "incomplete": "json without closing"#
        ]
    );
}

#[test]
fn test_process_only_json() {
    let input = r#"{"first": 1}
{"second": 2}
[1, 2, 3]
"string value""#;

    let output_str = process(input, 10, OutputFilter::Unfiltered(NoFilter), plain_compact());
    let lines: Vec<&str> = output_str.trim().split('\n').collect();

    assert_eq!(
        lines,
        vec![
            r#"{"first":1}"#,
            r#"{"second":2}"#,
            r#"[1,2,3]"#,
            r#""string value""#
        ]
    );
}

#[test]
fn test_process_empty_input() {
    let output_str = process("", 10, OutputFilter::Unfiltered(NoFilter), plain_compact());
    assert_eq!(output_str, "");
}

#[test]
fn test_process_with_overflow() {
    let input = r#"{invalid json start
more invalid
yet more invalid
{"valid": "json"}
final text"#;

    let output_str = process(input, 3, OutputFilter::Unfiltered(NoFilter), plain_compact());
    let lines: Vec<&str> = output_str.trim().split('\n').collect();

    assert_eq!(
        lines,
        vec![
            "{invalid json start",
            "more invalid",
            "yet more invalid",
            r#"{"valid":"json"}"#,
            "final text"
        ]
    );
}

#[test]
fn test_process_with_regex_filter() {
    let input = r#"Regular text line
{"status": "error", "message": "failed"}
Info: everything ok
{"status": "ok", "message": "success"}
ERROR: critical system failure"#;

    let filter = OutputFilter::from_args(Some("error".to_string()), false, false).unwrap();
    let output_str = process(input, 10, filter, plain_compact());
    let lines: Vec<&str> = output_str.trim().split('\n').collect();

    assert_eq!(
        lines,
        vec![
            r#"{"status":"error","message":"failed"}"#,
            "ERROR: critical system failure"
        ]
    );
}

#[test]
fn test_process_with_case_sensitive_filter() {
    let input = r#"error: lowercase
ERROR: uppercase
Error: mixed case
info: no match"#;

    let filter = OutputFilter::from_args(Some("ERROR".to_string()), true, false).unwrap();
    let output_str = process(input, 10, filter, plain_compact());
    let lines: Vec<&str> = output_str.trim().split('\n').collect();

    assert_eq!(lines, vec!["ERROR: uppercase"]);
}

#[test]
fn test_process_filter_json_structure() {
    let input = r#"{"status": "error", "code": 500}
{"status": "ok", "code": 200}
{"error": "not matching"}
Plain text with status error"#;

    let filter =
        OutputFilter::from_args(Some(r#""status"\s*:\s*"error""#.to_string()), false, false)
            .unwrap();
    let output_str = process(input, 10, filter, plain_compact());
    let lines: Vec<&str> = output_str.trim().split('\n').collect();

    assert_eq!(lines, vec![r#"{"status":"error","code":500}"#]);
}

#[test]
fn test_process_pretty_printed_output() {
    let input = r#"{"name": "Deep Space Nine", "location": "Bajoran system"}
Text line
{"crew": {"captain": "Sisko", "science": "Dax"}}"#;

    let formatter = JsonFormatter::from_args(false, true);
    let output_str = process(input, 10, OutputFilter::Unfiltered(NoFilter), formatter);

    assert!(output_str.contains("{\n  \"name\": \"Deep Space Nine\""));
    assert!(output_str.contains("  \"location\": \"Bajoran system\"\n}"));
    assert!(output_str.contains("{\n  \"crew\": {\n    \"captain\": \"Sisko\""));
    assert!(output_str.contains("Text line"));
}

#[test]
fn strip_line_ending_removes_newline_and_carriage_return() {
    assert_eq!(strip_line_ending("plain\r\n"), "plain");
    assert_eq!(strip_line_ending("plain\n"), "plain");
    assert_eq!(strip_line_ending("plain"), "plain");
    assert_eq!(strip_line_ending("plain\r"), "plain\r");
    assert_eq!(strip_line_ending("\n"), "");
    assert_eq!(strip_line_ending(""), "");
}

#[test]
fn render_record_suppresses_incomplete_and_rejected_records() {
    let pass = OutputFilter::Unfiltered(NoFilter);
    let json_only = OutputFilter::from_args(None, false, true).unwrap();
    let formatter = plain_compact();

    let waiting = BufferResult::Incomplete(vec!["{".to_string()]);
    assert_eq!(render_record(&pass, &formatter, &waiting).unwrap(), None);

    let line = BufferResult::Text("hello".to_string());
    assert_eq!(
        render_record(&pass, &formatter, &line).unwrap(),
        Some("hello".to_string())
    );
    assert_eq!(render_record(&json_only, &formatter, &line).unwrap(), None);

    let value = BufferResult::Json(serde_json::from_str("{ \"a\" : [1, 2] }").unwrap());
    assert_eq!(
        render_record(&json_only, &formatter, &value).unwrap(),
        Some(r#"{"a":[1,2]}"#.to_string())
    );
}

#[test]
fn plain_formatters_write_serde_json_text() {
    let value: serde_json::Value = serde_json::from_str("{ \"k\" : [1, 2] }").unwrap();
    assert_eq!(
        JsonFormatter::from_args(true, true).format_json(&value).unwrap(),
        r#"{"k":[1,2]}"#
    );
    assert_eq!(
        JsonFormatter::from_args(false, true).format_json(&value).unwrap(),
        "{\n  \"k\": [\n    1,\n    2\n  ]\n}"
    );
}
