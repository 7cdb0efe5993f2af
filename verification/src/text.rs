//! The text of a stage: its rows.

use vstd::prelude::*;
use vstd::std_specs::iter::IteratorSpec;
use crate::search::{first_match, lemma_first_match_is};

verus! {

/// The predicate that holds of the line feed.
pub open spec fn is_line_feed() -> spec_fn(char) -> bool {
    |c: char| c == '\n'
}

/// A line without the carriage return at its end, if it has one.
pub open spec fn trimmed(line: Seq<char>) -> Seq<char> {
    if line.len() > 0 && line.last() == '\r' {
        line.drop_last()
    } else {
        line
    }
}

/// The rows of a text.
///
/// A row ends at a line feed; a carriage return just before that line feed
/// belongs to the line ending. What follows the last line feed is a row too,
/// as it stands, unless it is empty.
pub open spec fn rows_of(text: Seq<char>) -> Seq<Seq<char>>
    decreases text.len(),
{
    let n = first_match(text, is_line_feed()) as int;
    if text.len() == 0 {
        Seq::empty()
    } else if n >= text.len() {
        seq![text]
    } else {
        seq![trimmed(text.take(n))] + rows_of(text.skip(n + 1))
    }
}

/// The rows held in vectors, as sequences.
pub open spec fn rows_view(rows: Seq<Vec<char>>) -> Seq<Seq<char>> {
    Seq::new(rows.len(), |i: int| rows[i]@)
}

/// The rows of a text whose first line feed stands at `n`: the line before
/// it, and the rows of what follows it.
pub proof fn lemma_rows_at_line_feed(text: Seq<char>, n: int)
    requires
        0 <= n < text.len(),
        text[n] == '\n',
        forall|j: int| 0 <= j < n ==> text[j] != '\n',
    ensures
        rows_of(text) == seq![trimmed(text.take(n))] + rows_of(text.skip(n + 1)),
{
    lemma_first_match_is(text, is_line_feed(), n);
}

/// The rows of a text without a line feed: the text itself, unless it is empty.
pub proof fn lemma_rows_of_last_line(text: Seq<char>)
    requires
        forall|j: int| 0 <= j < text.len() ==> text[j] != '\n',
    ensures
        rows_of(text) == if text.len() == 0 {
            Seq::<Seq<char>>::empty()
        } else {
            seq![text]
        },
{
    lemma_first_match_is(text, is_line_feed(), text.len() as int);
}

/// Splits a text into its rows.
pub fn split_rows(text: &str) -> (rows: Vec<Vec<char>>)
    ensures
        rows_view(rows@) == rows_of(text@),
{
    let mut rows: Vec<Vec<char>> = Vec::new();
    let mut line: Vec<char> = Vec::new();
    let mut it = text.chars();
    let ghost mut start: int = 0;
    let ghost mut pos: int = 0;
    proof {
        assert(text@.skip(0) =~= text@);
        assert(rows_view(rows@) + rows_of(text@) =~= rows_of(text@));
    }
    loop
        invariant
            0 <= start <= pos <= text@.len(),
            it.remaining() == text@.skip(pos),
            line@ == text@.subrange(start, pos),
            forall|j: int| start <= j < pos ==> text@[j] != '\n',
            rows_of(text@) == rows_view(rows@) + rows_of(text@.skip(start)),
        ensures
            pos == text@.len(),
        decreases text@.len() - pos,
    {
        match it.next() {
            None => {
                break;
            },
            Some(c) => {
                assert(c == text@[pos]);
                assert(text@.skip(pos).drop_first() =~= text@.skip(pos + 1));
                if c == '\n' {
                    let ghost tail = text@.skip(start);
                    let ghost whole = line@;
                    let ghost done = rows_view(rows@);
                    let n: usize = line.len();
                    if n > 0 && line[n - 1] == '\r' {
                        line.pop();
                    }
                    proof {
                        lemma_rows_at_line_feed(tail, pos - start);
                        assert(tail.take(pos - start) =~= whole);
                        assert(tail.skip(pos - start + 1) =~= text@.skip(pos + 1));
                        assert(line@ =~= trimmed(whole));
                    }
                    rows.push(line);
                    line = Vec::new();
                    proof {
                        assert(rows_view(rows@) =~= done.push(trimmed(whole)));
                        assert(done + (seq![trimmed(whole)] + rows_of(text@.skip(pos + 1)))
                            =~= done.push(trimmed(whole)) + rows_of(text@.skip(pos + 1)));
                        start = pos + 1;
                        assert(line@ =~= text@.subrange(start, pos + 1));
                    }
                } else {
                    line.push(c);
                    assert(line@ =~= text@.subrange(start, pos + 1));
                }
                proof {
                    pos = pos + 1;
                }
            },
        }
    }
    proof {
        let tail = text@.skip(start);
        lemma_rows_of_last_line(tail);
        assert(tail =~= line@);
    }
    let ghost done = rows_view(rows@);
    if line.len() > 0 {
        rows.push(line);
        proof {
            assert(rows_view(rows@) =~= done + seq![line@]);
        }
    } else {
        proof {
            assert(done + Seq::<Seq<char>>::empty() =~= done);
        }
    }
    rows
}

} // verus!
