//! The classifier as a mathematical model: the JSON-start heuristic, the
//! forward scan, and what one submission or the final flush emits.

use vstd::prelude::*;

use crate::json::is_json_text;

verus! {

/// The characters with the Unicode `White_Space` property.
pub open spec fn is_white_space(c: char) -> bool {
    let u = c as u32;
    ||| u == 0x20
    ||| 0x09 <= u <= 0x0d
    ||| u == 0x85
    ||| u == 0xa0
    ||| u == 0x1680
    ||| 0x2000 <= u <= 0x200a
    ||| u == 0x2028
    ||| u == 0x2029
    ||| u == 0x202f
    ||| u == 0x205f
    ||| u == 0x3000
}

/// `s` without its leading and trailing white space.
pub open spec fn trim_white_space(s: Seq<char>) -> Seq<char>
    decreases s.len(),
{
    if s.len() > 0 && is_white_space(s[0]) {
        trim_white_space(s.drop_first())
    } else if s.len() > 0 && is_white_space(s.last()) {
        trim_white_space(s.drop_last())
    } else {
        s
    }
}

/// Whether `s` begins with `p`.
pub open spec fn has_prefix(s: Seq<char>, p: Seq<char>) -> bool {
    p.len() <= s.len() && s.take(p.len() as int) == p
}

/// Whether a text, already trimmed, could begin a JSON value: it starts with a
/// quote, a brace, a bracket, a literal, a digit or a minus sign.
pub open spec fn starts_json_value(t: Seq<char>) -> bool {
    &&& t.len() > 0
    &&& {
        ||| t[0] == '"'
        ||| t[0] == '{'
        ||| t[0] == '['
        ||| t[0] == '-'
        ||| ('0' as u32) <= (t[0] as u32) <= ('9' as u32)
        ||| has_prefix(t, seq!['t', 'r', 'u', 'e'])
        ||| has_prefix(t, seq!['f', 'a', 'l', 's', 'e'])
        ||| has_prefix(t, seq!['n', 'u', 'l', 'l'])
    }
}

/// A line is JSON-like when its trimmed text could begin a JSON value.
pub open spec fn is_json_like(line: Seq<char>) -> bool {
    starts_json_value(trim_white_space(line))
}

/// The text of the lines joined with a newline between each two.
pub open spec fn join_lines(lines: Seq<Seq<char>>) -> Seq<char>
    decreases lines.len(),
{
    if lines.len() == 0 {
        Seq::empty()
    } else if lines.len() == 1 {
        lines[0]
    } else {
        join_lines(lines.drop_last()) + seq!['\n'] + lines.last()
    }
}

/// The texts of a sequence of strings.
pub open spec fn texts(v: Seq<String>) -> Seq<Seq<char>> {
    v.map_values(|s: String| s@)
}

/// Whether the first `k` lines, joined, form one JSON value.
pub open spec fn prefix_is_json(lines: Seq<Seq<char>>, k: int) -> bool {
    is_json_text(join_lines(lines.take(k)))
}

/// The smallest `k` with `from <= k <= lines.len()` whose prefix of `k` lines
/// forms one JSON value, if there is one.
pub open spec fn first_json_prefix_from(lines: Seq<Seq<char>>, from: int) -> Option<int>
    decreases lines.len() + 1 - from,
{
    if from < 0 || from > lines.len() {
        None
    } else if prefix_is_json(lines, from) {
        Some(from)
    } else {
        first_json_prefix_from(lines, from + 1)
    }
}

/// The forward scan: the shortest non-empty prefix of the lines that forms one
/// JSON value, by its number of lines.
pub open spec fn first_json_prefix(lines: Seq<Seq<char>>) -> Option<int> {
    first_json_prefix_from(lines, 1)
}

/// What the classifier emits, as a model: a JSON value parsed from the given
/// text, a line of plain text, or the lines still waiting for more input.
pub enum Emitted {
    Json(Seq<char>),
    Text(Seq<char>),
    Incomplete(Seq<Seq<char>>),
}

/// The greedy phase that follows an overflow: take the shortest JSON prefix,
/// else emit a first line that is not JSON-like as text, until neither applies
/// or the lines run out. Gives what is emitted and the lines that are left.
pub open spec fn drain_greedy(lines: Seq<Seq<char>>) -> (Seq<Emitted>, Seq<Seq<char>>)
    decreases lines.len(),
{
    if lines.len() == 0 {
        (Seq::empty(), lines)
    } else {
        proof {
            lemma_first_json_prefix(lines);
        }
        match first_json_prefix(lines) {
            Some(k) => {
                let rest = drain_greedy(lines.skip(k));
                (seq![Emitted::Json(join_lines(lines.take(k)))] + rest.0, rest.1)
            },
            None => if !is_json_like(lines[0]) {
                let rest = drain_greedy(lines.drop_first());
                (seq![Emitted::Text(lines[0])] + rest.0, rest.1)
            } else {
                (Seq::empty(), lines)
            },
        }
    }
}

/// The patient phase, on lines that have just grown by one: the whole buffer
/// as one JSON value; else, at capacity, the oldest line as text followed by
/// the greedy phase; else a single line that is not JSON-like as text; else
/// nothing. Gives what is emitted and the lines that are left.
pub open spec fn settle(lines: Seq<Seq<char>>, capacity: nat) -> (Seq<Emitted>, Seq<Seq<char>>) {
    if is_json_text(join_lines(lines)) {
        (seq![Emitted::Json(join_lines(lines))], Seq::empty())
    } else if lines.len() >= capacity {
        let rest = drain_greedy(lines.drop_first());
        (seq![Emitted::Text(lines[0])] + rest.0, rest.1)
    } else if lines.len() == 1 && !is_json_like(lines[0]) {
        (seq![Emitted::Text(lines[0])], Seq::empty())
    } else {
        (Seq::empty(), lines)
    }
}

/// What submitting `line` to a classifier holding `lines` emits, and the lines
/// it holds afterwards.
pub open spec fn submit_outcome(lines: Seq<Seq<char>>, capacity: nat, line: Seq<char>) -> (
    Seq<Emitted>,
    Seq<Seq<char>>,
) {
    if lines.len() == 0 && !is_json_like(line) {
        (seq![Emitted::Text(line)], lines)
    } else {
        let settled = settle(lines.push(line), capacity);
        if settled.1.len() > 0 {
            (settled.0.push(Emitted::Incomplete(settled.1)), settled.1)
        } else {
            settled
        }
    }
}

/// What flushing a classifier that holds `lines` emits: the shortest JSON
/// prefix, else the first line as text, until no line is left.
pub open spec fn drain_all(lines: Seq<Seq<char>>) -> Seq<Emitted>
    decreases lines.len(),
{
    if lines.len() == 0 {
        Seq::empty()
    } else {
        proof {
            lemma_first_json_prefix(lines);
        }
        match first_json_prefix(lines) {
            Some(k) => seq![Emitted::Json(join_lines(lines.take(k)))] + drain_all(lines.skip(k)),
            None => seq![Emitted::Text(lines[0])] + drain_all(lines.drop_first()),
        }
    }
}

proof fn lemma_first_json_prefix_from(lines: Seq<Seq<char>>, from: int)
    requires
        0 <= from,
    ensures
        match first_json_prefix_from(lines, from) {
            Some(k) => from <= k <= lines.len() && prefix_is_json(lines, k) && forall|j: int|
                from <= j < k ==> !prefix_is_json(lines, j),
            None => forall|j: int| from <= j <= lines.len() ==> !prefix_is_json(lines, j),
        },
    decreases lines.len() + 1 - from,
{
    if from <= lines.len() && !prefix_is_json(lines, from) {
        lemma_first_json_prefix_from(lines, from + 1);
    }
}

/// The forward scan finds the shortest prefix, of at least one line, that
/// forms one JSON value, or reports that no prefix does.
pub proof fn lemma_first_json_prefix(lines: Seq<Seq<char>>)
    ensures
        match first_json_prefix(lines) {
            Some(k) => 1 <= k <= lines.len() && prefix_is_json(lines, k) && forall|j: int|
                1 <= j < k ==> !prefix_is_json(lines, j),
            None => forall|j: int| 1 <= j <= lines.len() ==> !prefix_is_json(lines, j),
        },
{
    lemma_first_json_prefix_from(lines, 1);
}

} // verus!
