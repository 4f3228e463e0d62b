//! The line model shared by the three tools.
//!
//! A stream is a sequence of bytes. It falls apart into line records: every
//! record but possibly the last ends with a newline, no record holds a
//! newline anywhere else, none is empty, and the records put together give
//! the stream back. A last record without a newline counts as a line.

use vstd::prelude::*;

verus! {

/// The byte that ends a line.
pub const NEWLINE: u8 = 10;

/// Nothing of a line is pending at the end of `s`: the next byte would
/// begin a new record.
pub open spec fn at_line_start(s: Seq<u8>) -> bool {
    s.len() == 0 || s.last() == NEWLINE
}

/// The line records of `s`, in order, each with its newline where it has one.
///
/// A byte that follows a newline (or begins the stream) opens a record of
/// its own; any other byte joins the last record.
pub open spec fn records(s: Seq<u8>) -> Seq<Seq<u8>>
    decreases s.len(),
{
    if s.len() == 0 {
        Seq::empty()
    } else if at_line_start(s.drop_last()) {
        records(s.drop_last()).push(seq![s.last()])
    } else {
        let before = records(s.drop_last());
        before.drop_last().push(before.last().push(s.last()))
    }
}

/// What a record holds once its newline, if it has one, is taken off.
pub open spec fn record_content(record: Seq<u8>) -> Seq<u8> {
    if record.len() > 0 && record.last() == NEWLINE {
        record.drop_last()
    } else {
        record
    }
}

/// A blank line: nothing is left once the newline is taken off.
pub open spec fn is_blank(record: Seq<u8>) -> bool {
    record_content(record).len() == 0
}

/// A well-formed record is not empty and holds no newline before its last byte.
pub open spec fn is_record(record: Seq<u8>) -> bool {
    &&& record.len() > 0
    &&& forall|j: int| 0 <= j < record.len() - 1 ==> record[j] != NEWLINE
}

/// How many newlines `s` holds.
pub open spec fn newline_count(s: Seq<u8>) -> nat
    decreases s.len(),
{
    if s.len() == 0 {
        0
    } else {
        newline_count(s.drop_last()) + if s.last() == NEWLINE { 1nat } else { 0nat }
    }
}

/// How many lines `s` holds: one for each newline, and one more for a last
/// line that no newline ends.
pub open spec fn line_count(s: Seq<u8>) -> nat {
    newline_count(s) + if at_line_start(s) { 0nat } else { 1nat }
}

/// `recs` splits `s` into lines: well-formed records, a newline at the end
/// of each but possibly the last, and together the stream.
pub open spec fn splits_into_lines(s: Seq<u8>, recs: Seq<Seq<u8>>) -> bool {
    &&& recs.flatten() == s
    &&& forall|i: int| 0 <= i < recs.len() ==> is_record(#[trigger] recs[i])
    &&& forall|i: int| 0 <= i < recs.len() - 1 ==> (#[trigger] recs[i]).last() == NEWLINE
}

/// What one more byte does to the records.
pub proof fn lemma_records_push(s: Seq<u8>, b: u8)
    ensures
        records(s.push(b)) == if at_line_start(s) {
            records(s).push(seq![b])
        } else {
            records(s).drop_last().push(records(s).last().push(b))
        },
        newline_count(s.push(b)) == newline_count(s) + if b == NEWLINE { 1nat } else { 0nat },
{
    assert(s.push(b).drop_last() =~= s);
}

/// The records are well formed, they are as many as the stream has lines,
/// all but possibly the last end with a newline, the last ends as the
/// stream does, and together they are the stream.
pub proof fn lemma_records_shape(s: Seq<u8>)
    ensures
        splits_into_lines(s, records(s)),
        records(s).flatten() == s,
        records(s).len() == line_count(s),
        forall|i: int| 0 <= i < records(s).len() ==> is_record(#[trigger] records(s)[i]),
        forall|i: int|
            0 <= i < records(s).len() - 1 ==> (#[trigger] records(s)[i]).last() == NEWLINE,
        s.len() > 0 ==> records(s).len() > 0 && records(s).last().last() == s.last(),
    decreases s.len(),
{
    if s.len() == 0 {
        assert(records(s).flatten() =~= s);
    } else {
        let p = s.drop_last();
        let b = s.last();
        let before = records(p);
        lemma_records_shape(p);
        assert(s =~= p.push(b));
        if at_line_start(p) {
            before.lemma_flatten_push(seq![b]);
            assert(records(s).flatten() =~= s);
        } else {
            let open = before.last();
            let closed = before.drop_last();
            assert(before =~= closed.push(open));
            closed.lemma_flatten_push(open);
            closed.lemma_flatten_push(open.push(b));
        }
    }
}

/// A stream splits into lines in one way only: as its records.
pub proof fn lemma_records_unique(s: Seq<u8>, recs: Seq<Seq<u8>>)
    requires
        splits_into_lines(s, recs),
    ensures
        recs == records(s),
    decreases s.len(),
{
    if recs.len() > 0 {
        let last = recs.last();
        let init = recs.drop_last();
        assert(recs =~= init.push(last));
        init.lemma_flatten_push(last);
        let p = s.drop_last();
        let b = s.last();
        if init.len() > 0 {
            init.drop_last().lemma_flatten_push(init.last());
        }
        if last.len() == 1 {
            assert(init.flatten() =~= p);
            lemma_records_unique(p, init);
            assert(last =~= seq![b]);
        } else {
            let shorter = init.push(last.drop_last());
            init.lemma_flatten_push(last.drop_last());
            assert(shorter.flatten() =~= p);
            lemma_records_unique(p, shorter);
            assert(last.drop_last().push(b) =~= last);
        }
    }
}

} // verus!
