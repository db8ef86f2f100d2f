//! Laws of the classifier, stated over its model and proved.

use vstd::prelude::*;

use crate::json::is_json_text;
use crate::model::{
    drain_all, drain_greedy, first_json_prefix, is_json_like, join_lines,
    lemma_first_json_prefix, prefix_is_json, submit_outcome, Emitted,
};

verus! {

/// Whenever some prefix of the buffer forms one JSON value, the forward scan
/// picks the shortest such prefix, and both the greedy phase after an
/// overflow and the final flush emit it first: when the first line alone is a
/// JSON value, that one line is emitted, whatever longer prefixes would parse
/// too.
pub proof fn lemma_scan_takes_shortest_prefix(lines: Seq<Seq<char>>, k: int)
    requires
        1 <= k <= lines.len(),
        prefix_is_json(lines, k),
    ensures
        first_json_prefix(lines) is Some,
        1 <= first_json_prefix(lines)->0 <= k,
        forall|j: int|
            1 <= j < first_json_prefix(lines)->0 ==> !prefix_is_json(lines, j),
        drain_all(lines)[0] == Emitted::Json(
            join_lines(lines.take(first_json_prefix(lines)->0)),
        ),
        drain_greedy(lines).0[0] == Emitted::Json(
            join_lines(lines.take(first_json_prefix(lines)->0)),
        ),
        prefix_is_json(lines, 1) ==> drain_all(lines)[0] == Emitted::Json(lines[0]),
        prefix_is_json(lines, 1) ==> drain_greedy(lines).0[0] == Emitted::Json(lines[0]),
{
    lemma_first_json_prefix(lines);
    if prefix_is_json(lines, 1) {
        assert(lines.take(1) =~= seq![lines[0]]);
    }
}

proof fn lemma_drain_greedy_shrinks(lines: Seq<Seq<char>>)
    ensures
        drain_greedy(lines).1.len() <= lines.len(),
    decreases lines.len(),
{
    if lines.len() > 0 {
        lemma_first_json_prefix(lines);
        match first_json_prefix(lines) {
            Some(k) => lemma_drain_greedy_shrinks(lines.skip(k)),
            None => if !is_json_like(lines[0]) {
                lemma_drain_greedy_shrinks(lines.drop_first());
            },
        }
    }
}

/// For every capacity, a classifier that holds no more lines than its
/// capacity still holds no more after any submission: the bound is kept from
/// one call to the next.
pub proof fn lemma_submit_respects_capacity(lines: Seq<Seq<char>>, capacity: nat, line: Seq<char>)
    requires
        lines.len() <= capacity,
    ensures
        submit_outcome(lines, capacity, line).1.len() <= capacity,
{
    lemma_drain_greedy_shrinks(lines.push(line).drop_first());
}

/// Flushing emits JSON values and text only: never a record that waits for
/// more input.
pub proof fn lemma_drain_all_has_no_incomplete(lines: Seq<Seq<char>>)
    ensures
        forall|i: int|
            0 <= i < drain_all(lines).len() ==> !(#[trigger] drain_all(lines)[i] is Incomplete),
    decreases lines.len(),
{
    if lines.len() > 0 {
        lemma_first_json_prefix(lines);
        match first_json_prefix(lines) {
            Some(k) => lemma_drain_all_has_no_incomplete(lines.skip(k)),
            None => lemma_drain_all_has_no_incomplete(lines.drop_first()),
        }
        let out = drain_all(lines);
        assert forall|i: int| 0 <= i < out.len() implies !(#[trigger] out[i] is Incomplete) by {
            if i > 0 {
                match first_json_prefix(lines) {
                    Some(k) => assert(out[i] == drain_all(lines.skip(k))[i - 1]),
                    None => assert(out[i] == drain_all(lines.drop_first())[i - 1]),
                }
            }
        }
    }
}

/// A value spread over three lines comes out whole, for every capacity of at
/// least three: its first line, JSON-like but not a value alone, and its first
/// two lines, no value either, are held as `Incomplete`; the third line
/// completes it and the buffer empties; a flush then emits nothing more.
pub proof fn lemma_three_line_value(
    a: Seq<char>,
    b: Seq<char>,
    c: Seq<char>,
    capacity: nat,
)
    requires
        capacity >= 3,
        is_json_like(a),
        !is_json_text(a),
        !is_json_text(join_lines(seq![a, b])),
        is_json_text(join_lines(seq![a, b, c])),
    ensures
        ({
            let first = submit_outcome(Seq::empty(), capacity, a);
            let second = submit_outcome(first.1, capacity, b);
            let third = submit_outcome(second.1, capacity, c);
            &&& first.0 == seq![Emitted::Incomplete(seq![a])]
            &&& second.0 == seq![Emitted::Incomplete(seq![a, b])]
            &&& third.0 == seq![Emitted::Json(join_lines(seq![a, b, c]))]
            &&& third.1.len() == 0
            &&& drain_all(third.1).len() == 0
        }),
{
    let empty = Seq::<Seq<char>>::empty();
    assert(empty.push(a) =~= seq![a]);
    assert(join_lines(seq![a]) == a);
    let first = submit_outcome(empty, capacity, a);
    assert(first.1 == seq![a]);
    assert(seq![a].push(b) =~= seq![a, b]);
    let second = submit_outcome(first.1, capacity, b);
    assert(second.1 == seq![a, b]);
    assert(seq![a, b].push(c) =~= seq![a, b, c]);
}

} // verus!
