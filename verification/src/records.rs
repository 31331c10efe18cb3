//! The record set: a text cut at its line feeds.
//!
//! Nothing is trimmed or dropped. A text that ends in a line feed ends in an
//! empty record, and the empty text is one empty record.

use crate::std_support::push_char;
use vstd::prelude::*;

verus! {

/// The records of a text: the pieces between its line feeds, in order.
pub open spec fn split_lines(text: Seq<char>) -> Seq<Seq<char>>
    decreases text.len(),
{
    if text.len() == 0 {
        seq![Seq::<char>::empty()]
    } else {
        let before = split_lines(text.drop_last());
        if text.last() == '\n' {
            before.push(Seq::<char>::empty())
        } else {
            before.drop_last().push(before.last().push(text.last()))
        }
    }
}

/// The text whose records these are: the records with a line feed between
/// each two.
pub open spec fn join_lines(records: Seq<Seq<char>>) -> Seq<char>
    decreases records.len(),
{
    if records.len() == 0 {
        Seq::<char>::empty()
    } else if records.len() == 1 {
        records[0]
    } else {
        join_lines(records.drop_last()) + seq!['\n'] + records.last()
    }
}

/// No line feed stands inside a record.
pub open spec fn is_record(record: Seq<char>) -> bool {
    forall|i: int| 0 <= i < record.len() ==> record[i] != '\n'
}

/// Cuts a text into its records: the pieces between its line feeds, in
/// order, empty ones too. There is at least one, none holds a line feed, and
/// joined by line feeds they are the text again.
pub fn split_records(text: &str) -> (records: Vec<String>)
    ensures
        records.deep_view() == split_lines(text@),
        records.len() >= 1,
        forall|i: int| 0 <= i < records.len() ==> is_record(#[trigger] records[i]@),
        join_lines(records.deep_view()) == text@,
{
    let mut records: Vec<String> = Vec::new();
    let mut current = String::new();
    for c in chars: text.chars()
        invariant
            chars.seq() == text@,
            records.deep_view().push(current@) == split_lines(text@.take(chars.index() as int)),
    {
        assert(text@.take(chars.index() + 1).drop_last() == text@.take(chars.index() as int));
        if c == '\n' {
            records.push(current);
            current = String::new();
        } else {
            push_char(&mut current, c);
        }
    }
    records.push(current);
    proof {
        assert(text@.take(text@.len() as int) == text@);
        lemma_join_of_split(text@);
        assert forall|i: int| 0 <= i < records.len() implies is_record(#[trigger] records[i]@) by {
            assert(records[i]@ == split_lines(text@)[i]);
        }
    }
    records
}

/// A text has at least one record, no record holds a line feed, and the
/// records joined by line feeds are the text again: nothing is lost, added or
/// moved.
pub proof fn lemma_join_of_split(text: Seq<char>)
    ensures
        split_lines(text).len() >= 1,
        forall|i: int|
            0 <= i < split_lines(text).len() ==> is_record(#[trigger] split_lines(text)[i]),
        join_lines(split_lines(text)) == text,
    decreases text.len(),
{
    if text.len() > 0 {
        let before = split_lines(text.drop_last());
        let cut = split_lines(text);
        lemma_join_of_split(text.drop_last());
        if text.last() == '\n' {
            assert(cut.drop_last() == before);
        } else if before.len() > 1 {
            assert(cut.drop_last() == before.drop_last());
            assert(join_lines(cut) == join_lines(before).push(text.last()));
        }
    }
}

/// Text without a line feed, put behind a text, lengthens that text's last
/// record and makes no new one.
proof fn lemma_split_of_extended(text: Seq<char>, more: Seq<char>)
    requires
        is_record(more),
    ensures
        split_lines(text).len() >= 1,
        split_lines(text + more) == split_lines(text).drop_last().push(
            split_lines(text).last() + more,
        ),
    decreases more.len(),
{
    lemma_join_of_split(text);
    if more.len() > 0 {
        let shorter = more.drop_last();
        let last = split_lines(text).last();
        lemma_split_of_extended(text, shorter);
        assert((text + more).drop_last() == text + shorter);
        assert((last + shorter).push(more.last()) == last + more);
    }
}

/// Cutting undoes joining: records without line feeds, joined by line feeds
/// and cut again, are the same records. So the records of a text are the only
/// way to write it as line-feed-free pieces with a line feed between each two.
pub proof fn lemma_split_of_join(records: Seq<Seq<char>>)
    requires
        records.len() >= 1,
        forall|i: int| 0 <= i < records.len() ==> is_record(#[trigger] records[i]),
    ensures
        split_lines(join_lines(records)) == records,
    decreases records.len(),
{
    if records.len() == 1 {
        lemma_split_of_extended(Seq::<char>::empty(), records[0]);
    } else {
        let earlier = records.drop_last();
        let ended = join_lines(earlier) + seq!['\n'];
        lemma_split_of_join(earlier);
        assert(ended.drop_last() == join_lines(earlier));
        lemma_split_of_extended(ended, records.last());
    }
}

} // verus!
