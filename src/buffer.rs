//! The line classifier: a bounded buffer of raw lines that decides, after each
//! new line, which lines form complete JSON values, which are plain text, and
//! which must wait for more input.

use vstd::prelude::*;

use crate::json::{json_parse_of, parse_json};
use crate::laws::lemma_drain_all_has_no_incomplete;
use crate::model::{
    drain_all, drain_greedy, first_json_prefix, first_json_prefix_from, has_prefix, is_json_like,
    join_lines, lemma_first_json_prefix, settle, submit_outcome, texts, trim_white_space, Emitted,
};

verus! {

/// Relies on `str::trim`: it removes leading and trailing characters with the
/// Unicode `White_Space` property.
#[verifier::external_body]
fn trim(s: &str) -> (r: &str)
    ensures
        r@ == trim_white_space(s@),
{
    s.trim()
}

/// Whether `t`, of `n` characters, begins with `word`.
fn starts_with_word(t: &str, n: usize, word: &str) -> (r: bool)
    requires
        n == t@.len(),
    ensures
        r == has_prefix(t@, word@),
{
    let m = word.unicode_len();
    if m > n {
        return false;
    }
    let mut i: usize = 0;
    while i < m
        invariant
            m == word@.len(),
            m <= n == t@.len(),
            i <= m,
            forall|j: int| 0 <= j < i ==> t@[j] == word@[j],
        decreases m - i,
    {
        if t.get_char(i) != word.get_char(i) {
            assert(t@.take(m as int)[i as int] != word@[i as int]);
            return false;
        }
        i = i + 1;
    }
    assert(t@.take(m as int) =~= word@);
    true
}

/// A classified record: a parsed JSON value, a line of plain text, or a copy
/// of the lines that still wait for more input.
#[derive(Debug, PartialEq)]
pub enum BufferResult {
    Json(serde_json::Value),
    Text(String),
    Incomplete(Vec<String>),
}

/// Whether a record is the one that the model describes: a JSON record holds
/// the value that the parser gives for the model's text.
pub open spec fn record_matches(r: BufferResult, e: Emitted) -> bool {
    match e {
        Emitted::Json(t) => r is Json && json_parse_of(t) == Some(r->Json_0),
        Emitted::Text(t) => r is Text && r->Text_0@ == t,
        Emitted::Incomplete(ls) => r is Incomplete && texts(r->Incomplete_0@) == ls,
    }
}

/// Whether the records are, one by one, those that the model describes.
pub open spec fn records_match(rs: Seq<BufferResult>, es: Seq<Emitted>) -> bool {
    &&& rs.len() == es.len()
    &&& forall|i: int| 0 <= i < rs.len() ==> record_matches(#[trigger] rs[i], es[i])
}

proof fn lemma_records_match_push(rs: Seq<BufferResult>, es: Seq<Emitted>, r: BufferResult)
    requires
        rs.len() < es.len(),
        records_match(rs, es.take(rs.len() as int)),
        record_matches(r, es[rs.len() as int]),
    ensures
        records_match(rs.push(r), es.take(rs.len() as int + 1)),
{
    assert forall|i: int| 0 <= i < rs.len() + 1 implies record_matches(
        #[trigger] rs.push(r)[i],
        es.take(rs.len() as int + 1)[i],
    ) by {
        if i < rs.len() {
            assert(record_matches(rs[i], es.take(rs.len() as int)[i]));
        }
    }
}

proof fn lemma_skip_step<A>(s: Seq<A>, n: int, x: A, rest: Seq<A>)
    requires
        0 <= n <= s.len(),
        s.skip(n) == seq![x] + rest,
    ensures
        n < s.len(),
        s[n] == x,
        s.skip(n + 1) == rest,
{
    assert(s.skip(n).len() >= 1);
    assert(s.skip(n)[0] == s[n]);
    assert(s.skip(n + 1) =~= s.skip(n).drop_first());
    assert((seq![x] + rest).drop_first() =~= rest);
}

/// The phases of one submission.
enum Phase {
    /// Waiting patiently: only the whole buffer may be taken as JSON.
    Accumulating,
    /// After an overflow: extract greedily whatever can be extracted.
    Draining,
}

/// What a phase emits from the given lines, and the lines it leaves.
spec fn phase_outcome(phase: Phase, lines: Seq<Seq<char>>, capacity: nat) -> (
    Seq<Emitted>,
    Seq<Seq<char>>,
) {
    match phase {
        Phase::Accumulating => settle(lines, capacity),
        Phase::Draining => drain_greedy(lines),
    }
}

/// The first `end` lines joined with newlines.
fn join_prefix(lines: &Vec<String>, end: usize) -> (r: String)
    requires
        end <= lines@.len(),
    ensures
        r@ == join_lines(texts(lines@).take(end as int)),
{
    let mut r = String::new();
    let mut i: usize = 0;
    proof {
        assert(texts(lines@).take(0) =~= Seq::<Seq<char>>::empty());
    }
    while i < end
        invariant
            end <= lines@.len(),
            i <= end,
            r@ == join_lines(texts(lines@).take(i as int)),
        decreases end - i,
    {
        let ghost before = texts(lines@).take(i as int);
        let ghost after = texts(lines@).take(i + 1);
        assert(after.drop_last() =~= before);
        assert(after.last() == lines@[i as int]@);
        if i > 0 {
            r.append("\n");
        } else {
            assert(r@ =~= Seq::<char>::empty());
        }
        r.append(lines[i].as_str());
        proof {
            if i == 0 {
                assert(r@ =~= after[0]);
            } else {
                reveal_strlit("\n");
                assert("\n"@ =~= seq!['\n']);
            }
        }
        i = i + 1;
    }
    r
}

/// The whole buffer, when it forms one JSON value.
fn try_parse_buffer_segments(buffer: &Vec<String>) -> (r: Option<serde_json::Value>)
    ensures
        r == json_parse_of(join_lines(texts(buffer@))),
{
    let full = join_prefix(buffer, buffer.len());
    proof {
        assert(texts(buffer@).take(buffer@.len() as int) =~= texts(buffer@));
    }
    parse_json(full.as_str())
}

/// The forward scan: the value of the shortest prefix of the buffer that
/// forms one JSON value, and its number of lines.
fn try_parse_forward_segments(buffer: &Vec<String>) -> (r: Option<(serde_json::Value, usize)>)
    ensures
        match r {
            Some((v, k)) => first_json_prefix(texts(buffer@)) == Some(k as int) && json_parse_of(
                join_lines(texts(buffer@).take(k as int)),
            ) == Some(v),
            None => first_json_prefix(texts(buffer@)) is None,
        },
{
    let n = buffer.len();
    let mut k: usize = 0;
    while k < n
        invariant
            n == buffer@.len(),
            k <= n,
            first_json_prefix(texts(buffer@)) == first_json_prefix_from(texts(buffer@), k + 1),
        decreases n - k,
    {
        let combined = join_prefix(buffer, k + 1);
        if let Some(v) = parse_json(combined.as_str()) {
            return Some((v, k + 1));
        }
        k = k + 1;
    }
    None
}

/// Removes the oldest `k` lines.
fn remove_front(buffer: &mut Vec<String>, k: usize)
    requires
        k <= old(buffer)@.len(),
    ensures
        texts(final(buffer)@) == texts(old(buffer)@).skip(k as int),
{
    let rest = buffer.split_off(k);
    *buffer = rest;
    assert(texts(buffer@) =~= texts(old(buffer)@).skip(k as int));
}

/// A bounded buffer of lines that are not yet classified. It never holds more
/// lines than its capacity.
pub struct LineBuffer {
    buffer: Vec<String>,
    max_lines: usize,
}

impl LineBuffer {
    #[verifier::type_invariant]
    spec fn within_capacity(&self) -> bool {
        self.buffer@.len() <= self.max_lines
    }

    /// The lines held, oldest first.
    pub closed spec fn lines(&self) -> Seq<Seq<char>> {
        texts(self.buffer@)
    }

    /// The number of lines held before the oldest is forced out.
    pub closed spec fn capacity(&self) -> nat {
        self.max_lines as nat
    }

    /// The buffer holds no more lines than its capacity.
    pub open spec fn wf(&self) -> bool {
        self.lines().len() <= self.capacity()
    }

    /// An empty classifier that holds at most `max_lines` lines.
    pub fn new(max_lines: usize) -> (r: Self)
        ensures
            r.wf(),
            r.lines().len() == 0,
            r.capacity() == max_lines,
    {
        Self { buffer: Vec::new(), max_lines }
    }

    /// Whether `line` could begin a JSON value. The test is permissive: a
    /// line that passes may still fail to parse, but every line that begins a
    /// JSON value passes.
    pub fn could_be_json_start(line: &str) -> (r: bool)
        ensures
            r == is_json_like(line@),
    {
        let t = trim(line);
        let n = t.unicode_len();
        if n == 0 {
            return false;
        }
        let c = t.get_char(0);
        if c == '"' || c == '{' || c == '[' || c == '-' || ('0' <= c && c <= '9') {
            return true;
        }
        proof {
            reveal_strlit("true");
            reveal_strlit("false");
            reveal_strlit("null");
        }
        assert("true"@ =~= seq!['t', 'r', 'u', 'e']);
        assert("false"@ =~= seq!['f', 'a', 'l', 's', 'e']);
        assert("null"@ =~= seq!['n', 'u', 'l', 'l']);
        starts_with_word(t, n, "true") || starts_with_word(t, n, "false") || starts_with_word(t, n, "null")
    }

    /// Takes one arriving line and returns what can be classified now. A line
    /// that arrives at an empty buffer and is not JSON-like passes straight
    /// through as text. Otherwise the line is buffered and the buffer is
    /// settled: first patiently (only the whole buffer counts as JSON), and
    /// after an overflow greedily. Whatever is left is reported last, as one
    /// `Incomplete` snapshot.
    pub fn add_line(&mut self, line: String) -> (results: Vec<BufferResult>)
        ensures
            old(self).wf(),
            final(self).wf(),
            final(self).capacity() == old(self).capacity(),
            records_match(
                results@,
                submit_outcome(old(self).lines(), old(self).capacity(), line@).0,
            ),
            final(self).lines() == submit_outcome(
                old(self).lines(),
                old(self).capacity(),
                line@,
            ).1,
            old(self).lines().len() == 0 && !is_json_like(line@) ==> results@ == seq![
                BufferResult::Text(line),
            ] && final(self).lines().len() == 0,
    {
        proof {
            use_type_invariant(&*self);
        }
        if self.buffer.is_empty() && !Self::could_be_json_start(line.as_str()) {
            return vec![BufferResult::Text(line)];
        }
        let max_lines = self.max_lines;
        let ghost cap = self.capacity();
        let ghost start = self.lines().push(line@);
        let ghost total = settle(start, cap);
        let mut buffer: Vec<String> = Vec::new();
        std::mem::swap(&mut self.buffer, &mut buffer);
        buffer.push(line);
        assert(texts(buffer@) =~= start);
        let mut results: Vec<BufferResult> = Vec::new();
        let mut phase = Phase::Accumulating;
        loop
            invariant_except_break
                max_lines == cap,
                start.len() <= cap + 1,
                buffer@.len() > 0,
                phase is Accumulating ==> texts(buffer@) == start && results@.len() == 0,
                phase is Draining ==> buffer@.len() <= cap,
                results@.len() <= total.0.len(),
                records_match(results@, total.0.take(results@.len() as int)),
                total.0.skip(results@.len() as int) == phase_outcome(phase, texts(buffer@), cap).0,
                total.1 == phase_outcome(phase, texts(buffer@), cap).1,
            ensures
                buffer@.len() <= cap,
                texts(buffer@) == total.1,
                total.1.len() > 0 ==> records_match(
                    results@,
                    total.0.push(Emitted::Incomplete(total.1)),
                ),
                total.1.len() == 0 ==> records_match(results@, total.0),
            decreases buffer@.len(),
        {
            let ghost lines = texts(buffer@);
            let ghost n = results@.len() as int;
            let ghost before = phase_outcome(phase, lines, cap).0;
            let mut is_stable = true;
            match phase {
                Phase::Accumulating => {
                    if let Some(value) = try_parse_buffer_segments(&buffer) {
                        let r = BufferResult::Json(value);
                        proof {
                            lemma_skip_step(total.0, n, Emitted::Json(join_lines(lines)), Seq::empty());
                            lemma_records_match_push(results@, total.0, r);
                        }
                        results.push(r);
                        buffer.clear();
                        assert(texts(buffer@) =~= Seq::<Seq<char>>::empty());
                        is_stable = false;
                    } else if buffer.len() >= max_lines {
                        // Overflow: the oldest line goes out as text.
                        let r = BufferResult::Text(buffer.remove(0));
                        proof {
                            let rest = drain_greedy(lines.drop_first());
                            lemma_skip_step(total.0, n, Emitted::Text(lines[0]), rest.0);
                            lemma_records_match_push(results@, total.0, r);
                        }
                        results.push(r);
                        assert(texts(buffer@) =~= lines.drop_first());
                        phase = Phase::Draining;
                        is_stable = false;
                    } else if buffer.len() == 1 && !Self::could_be_json_start(buffer[0].as_str()) {
                        let r = BufferResult::Text(buffer.remove(0));
                        proof {
                            lemma_skip_step(total.0, n, Emitted::Text(lines[0]), Seq::empty());
                            lemma_records_match_push(results@, total.0, r);
                        }
                        results.push(r);
                        assert(texts(buffer@) =~= Seq::<Seq<char>>::empty());
                        is_stable = false;
                    }
                },
                Phase::Draining => {
                    proof {
                        lemma_first_json_prefix(lines);
                    }
                    if let Some((value, end_idx)) = try_parse_forward_segments(&buffer) {
                        let r = BufferResult::Json(value);
                        proof {
                            let rest = drain_greedy(lines.skip(end_idx as int));
                            lemma_skip_step(
                                total.0,
                                n,
                                Emitted::Json(join_lines(lines.take(end_idx as int))),
                                rest.0,
                            );
                            lemma_records_match_push(results@, total.0, r);
                        }
                        results.push(r);
                        remove_front(&mut buffer, end_idx);
                        is_stable = false;
                    } else if !Self::could_be_json_start(buffer[0].as_str()) {
                        let r = BufferResult::Text(buffer.remove(0));
                        proof {
                            let rest = drain_greedy(lines.drop_first());
                            lemma_skip_step(total.0, n, Emitted::Text(lines[0]), rest.0);
                            lemma_records_match_push(results@, total.0, r);
                        }
                        results.push(r);
                        assert(texts(buffer@) =~= lines.drop_first());
                        is_stable = false;
                    } else {
                        // The buffer did not change: it is cold again and waits
                        // for more input.
                        phase = Phase::Accumulating;
                    }
                },
            }
            if is_stable {
                assert(before.len() == 0);
                assert(total.0.take(n) =~= total.0);
                if !buffer.is_empty() {
                    let snapshot = buffer.clone();
                    let r = BufferResult::Incomplete(snapshot);
                    proof {
                        assert(texts(snapshot@) =~= texts(buffer@));
                        lemma_records_match_push(
                            results@,
                            total.0.push(Emitted::Incomplete(total.1)),
                            r,
                        );
                        assert(total.0.push(Emitted::Incomplete(total.1)).take(n) =~= total.0);
                        assert(total.0.push(Emitted::Incomplete(total.1)).take(n + 1)
                            =~= total.0.push(Emitted::Incomplete(total.1)));
                    }
                    results.push(r);
                }
                break;
            }
            if buffer.is_empty() {
                proof {
                    assert(texts(buffer@) =~= Seq::<Seq<char>>::empty());
                    assert(drain_greedy(texts(buffer@)).0 =~= Seq::<Emitted>::empty());
                    assert(total.0.skip(results@.len() as int).len() == 0);
                    assert(total.0.take(results@.len() as int) =~= total.0);
                }
                break;
            }
        }
        self.buffer = buffer;
        results
    }

    /// Resolves everything still buffered, at the end of input: the shortest
    /// prefix that forms one JSON value is emitted as JSON, else the oldest
    /// line as text, until the buffer is empty. Nothing is left waiting, so no
    /// `Incomplete` record is produced.
    pub fn drain(&mut self) -> (results: Vec<BufferResult>)
        ensures
            old(self).wf(),
            final(self).wf(),
            final(self).lines().len() == 0,
            final(self).capacity() == old(self).capacity(),
            records_match(results@, drain_all(old(self).lines())),
            forall|i: int| 0 <= i < results@.len() ==> !(#[trigger] results@[i] is Incomplete),
            old(self).lines().len() == 0 ==> results@.len() == 0,
    {
        proof {
            use_type_invariant(&*self);
        }
        let ghost total = drain_all(self.lines());
        let mut buffer: Vec<String> = Vec::new();
        std::mem::swap(&mut self.buffer, &mut buffer);
        let mut results: Vec<BufferResult> = Vec::new();
        while !buffer.is_empty()
            invariant
                results@.len() <= total.len(),
                records_match(results@, total.take(results@.len() as int)),
                total.skip(results@.len() as int) == drain_all(texts(buffer@)),
            decreases buffer@.len(),
        {
            let ghost lines = texts(buffer@);
            let ghost n = results@.len() as int;
            proof {
                lemma_first_json_prefix(lines);
            }
            if let Some((value, end_idx)) = try_parse_forward_segments(&buffer) {
                let r = BufferResult::Json(value);
                proof {
                    lemma_skip_step(
                        total,
                        n,
                        Emitted::Json(join_lines(lines.take(end_idx as int))),
                        drain_all(lines.skip(end_idx as int)),
                    );
                    lemma_records_match_push(results@, total, r);
                }
                results.push(r);
                remove_front(&mut buffer, end_idx);
            } else {
                let r = BufferResult::Text(buffer.remove(0));
                proof {
                    lemma_skip_step(total, n, Emitted::Text(lines[0]), drain_all(lines.drop_first()));
                    lemma_records_match_push(results@, total, r);
                }
                results.push(r);
                assert(texts(buffer@) =~= lines.drop_first());
            }
        }
        proof {
            assert(texts(buffer@) =~= Seq::<Seq<char>>::empty());
            assert(total.skip(results@.len() as int).len() == 0);
            assert(total.take(results@.len() as int) =~= total);
            lemma_drain_all_has_no_incomplete(old(self).lines());
            assert forall|i: int| 0 <= i < results@.len() implies !(#[trigger] results@[i] is Incomplete) by {
                assert(record_matches(results@[i], total[i]));
            }
        }
        results
    }

    /// Whether no line is held.
    pub fn is_empty(&self) -> (r: bool)
        ensures
            r == (self.lines().len() == 0),
    {
        self.buffer.is_empty()
    }

    /// The number of lines held.
    pub fn len(&self) -> (r: usize)
        ensures
            r == self.lines().len(),
    {
        self.buffer.len()
    }
}

} // verus!
