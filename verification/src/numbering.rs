//! The numbering emitter: every line goes out again, with a running number
//! in front of it where the mode asks for one.

use vstd::prelude::*;
use crate::decimal::{push_right_aligned, right_aligned};
use crate::lines::{
    at_line_start, is_blank, lemma_records_push, lemma_records_shape, line_count, records, NEWLINE,
};

verus! {

/// The byte between a line's number and the line.
pub const TAB: u8 = 9;

/// The width of the field that holds a line's number.
pub const NUMBER_WIDTH: usize = 6;

/// Which lines get a number.
#[derive(Clone, Copy, Debug, PartialEq, Eq, Structural)]
pub enum NumberMode {
    /// None: every line goes out as it came.
    Plain,
    /// Every line.
    NumberAll,
    /// Every line that is not blank.
    NumberNonBlank,
}

/// Whether `record` gets a number under `mode`.
pub open spec fn is_numbered(mode: NumberMode, record: Seq<u8>) -> bool {
    match mode {
        NumberMode::Plain => false,
        NumberMode::NumberAll => true,
        NumberMode::NumberNonBlank => !is_blank(record),
    }
}

/// How many of `recs` get a number under `mode`.
pub open spec fn numbered_count(recs: Seq<Seq<u8>>, mode: NumberMode) -> nat
    decreases recs.len(),
{
    if recs.len() == 0 {
        0
    } else {
        numbered_count(recs.drop_last(), mode) + if is_numbered(mode, recs.last()) {
            1nat
        } else {
            0nat
        }
    }
}

/// The number shown in front of record `i`, if it gets one: its place among
/// the numbered records, counted from one.
pub open spec fn line_number(recs: Seq<Seq<u8>>, mode: NumberMode, i: int) -> Option<nat> {
    if is_numbered(mode, recs[i]) {
        Some(numbered_count(recs.take(i + 1), mode))
    } else {
        None
    }
}

/// What stands in front of a record: its number, right-aligned in six
/// places, and a tab; nothing where the record has no number.
pub open spec fn number_prefix(number: Option<nat>) -> Seq<u8> {
    match number {
        Some(n) => right_aligned(n, NUMBER_WIDTH as nat).push(TAB),
        None => Seq::empty(),
    }
}

/// Record `i` as it goes out.
pub open spec fn rendered_record(recs: Seq<Seq<u8>>, mode: NumberMode, i: int) -> Seq<u8> {
    number_prefix(line_number(recs, mode, i)) + recs[i]
}

/// All of `recs` as they go out, one entry for each.
pub open spec fn rendered_records(recs: Seq<Seq<u8>>, mode: NumberMode) -> Seq<Seq<u8>> {
    Seq::new(recs.len(), |i: int| rendered_record(recs, mode, i))
}

/// What the emitter writes for the stream `s`.
pub open spec fn numbered(s: Seq<u8>, mode: NumberMode) -> Seq<u8> {
    rendered_records(records(s), mode).flatten()
}

/// The number that a record beginning with `b` gets when it follows `s`.
pub open spec fn next_number(s: Seq<u8>, b: u8, mode: NumberMode) -> Option<nat> {
    if is_numbered(mode, seq![b]) {
        Some(numbered_count(records(s), mode) + 1)
    } else {
        None
    }
}

/// What one more byte adds to the output: at the start of a line its
/// number, if it gets one, and the byte; within a line the byte alone.
pub proof fn lemma_numbered_push(s: Seq<u8>, b: u8, mode: NumberMode)
    ensures
        numbered(s.push(b), mode) == if at_line_start(s) {
            numbered(s, mode) + number_prefix(next_number(s, b, mode)) + seq![b]
        } else {
            numbered(s, mode).push(b)
        },
        numbered_count(records(s.push(b)), mode) == numbered_count(records(s), mode) + if at_line_start(s)
            && is_numbered(mode, seq![b]) {
            1nat
        } else {
            0nat
        },
{
    let recs = records(s);
    let recs2 = records(s.push(b));
    let out = rendered_records(recs, mode);
    let out2 = rendered_records(recs2, mode);
    lemma_records_push(s, b);
    lemma_records_shape(s);
    if at_line_start(s) {
        assert(recs2.drop_last() =~= recs);
        assert(recs2.take(recs.len() as int + 1) =~= recs2);
        assert forall|i: int| 0 <= i < recs.len() implies out2[i] == out[i] by {
            assert(recs2.take(i + 1) =~= recs.take(i + 1));
        }
        let added = rendered_record(recs2, mode, recs.len() as int);
        assert(out2 =~= out.push(added));
        out.lemma_flatten_push(added);
    } else {
        let open = recs.last();
        let closed = recs.drop_last();
        assert(recs2.drop_last() =~= closed);
        assert(recs2.take(recs.len() as int) =~= recs2);
        assert(recs.take(recs.len() as int) =~= recs);
        assert(!is_blank(open.push(b)));
        assert forall|i: int| 0 <= i < recs.len() - 1 implies out2[i] == out[i] by {
            assert(recs2.take(i + 1) =~= recs.take(i + 1));
        }
        assert(out =~= out.drop_last().push(out.last()));
        assert(out2 =~= out.drop_last().push(out.last().push(b)));
        out.drop_last().lemma_flatten_push(out.last());
        out.drop_last().lemma_flatten_push(out.last().push(b));
    }
}

/// With no numbering the output is the input, byte for byte.
pub proof fn lemma_plain_unchanged(s: Seq<u8>)
    ensures
        numbered(s, NumberMode::Plain) == s,
    decreases s.len(),
{
    if s.len() > 0 {
        let p = s.drop_last();
        lemma_plain_unchanged(p);
        lemma_numbered_push(p, s.last(), NumberMode::Plain);
        assert(s =~= p.push(s.last()));
    }
}

/// Where every record gets a number, as many numbers are out as records.
proof fn lemma_numbered_count_all(recs: Seq<Seq<u8>>)
    ensures
        numbered_count(recs, NumberMode::NumberAll) == recs.len(),
    decreases recs.len(),
{
    if recs.len() > 0 {
        lemma_numbered_count_all(recs.drop_last());
    }
}

/// Numbering all lines of a stream of `M` lines gives them the numbers one
/// to `M` in order, whatever the lines hold: line `i`, counted from zero,
/// is shown with `i + 1`.
pub proof fn lemma_number_all_counts_up(s: Seq<u8>, i: int)
    requires
        0 <= i < line_count(s),
    ensures
        records(s).len() == line_count(s),
        line_number(records(s), NumberMode::NumberAll, i) == Some((i + 1) as nat),
{
    lemma_records_shape(s);
    lemma_numbered_count_all(records(s).take(i + 1));
}

/// Numbering all lines writes line `i`, counted from zero, as the number
/// `i + 1` right-aligned in six places, a tab, and the line as it came.
pub proof fn lemma_number_all_output(s: Seq<u8>)
    ensures
        numbered(s, NumberMode::NumberAll) == Seq::new(
            line_count(s),
            |i: int| right_aligned((i + 1) as nat, NUMBER_WIDTH as nat).push(TAB) + records(s)[i],
        ).flatten(),
{
    let recs = records(s);
    lemma_records_shape(s);
    assert forall|i: int| 0 <= i < recs.len() implies rendered_record(
        recs,
        NumberMode::NumberAll,
        i,
    ) == right_aligned((i + 1) as nat, NUMBER_WIDTH as nat).push(TAB) + recs[i] by {
        lemma_number_all_counts_up(s, i);
    }
    assert(rendered_records(recs, NumberMode::NumberAll) =~= Seq::new(
        line_count(s),
        |i: int| right_aligned((i + 1) as nat, NUMBER_WIDTH as nat).push(TAB) + records(s)[i],
    ));
}

/// How many of `recs` are not blank.
pub open spec fn nonblank_lines(recs: Seq<Seq<u8>>) -> nat {
    recs.filter(|r: Seq<u8>| !is_blank(r)).len()
}

/// Where the blank records get no number, as many numbers are out as
/// records that are not blank.
proof fn lemma_numbered_count_nonblank(recs: Seq<Seq<u8>>)
    ensures
        numbered_count(recs, NumberMode::NumberNonBlank) == nonblank_lines(recs),
    decreases recs.len(),
{
    reveal(Seq::filter);
    if recs.len() > 0 {
        lemma_numbered_count_nonblank(recs.drop_last());
    }
}

/// Numbering the lines that are not blank: a blank line is shown without a
/// number and leaves the counter where it was; any other line is shown with
/// the count of the lines so far, itself included, that are not blank.
pub proof fn lemma_number_nonblank_skips_blank(s: Seq<u8>, i: int)
    requires
        0 <= i < line_count(s),
    ensures
        records(s).len() == line_count(s),
        is_blank(records(s)[i]) ==> {
            &&& line_number(records(s), NumberMode::NumberNonBlank, i) is None
            &&& nonblank_lines(records(s).take(i + 1)) == nonblank_lines(records(s).take(i))
        },
        !is_blank(records(s)[i]) ==> {
            &&& line_number(records(s), NumberMode::NumberNonBlank, i) == Some(
                nonblank_lines(records(s).take(i + 1)),
            )
            &&& nonblank_lines(records(s).take(i + 1)) == nonblank_lines(records(s).take(i)) + 1
        },
{
    let recs = records(s);
    lemma_records_shape(s);
    lemma_numbered_count_nonblank(recs.take(i + 1));
    lemma_numbered_count_nonblank(recs.take(i));
    assert(recs.take(i + 1).drop_last() =~= recs.take(i));
}

/// Whether a record that begins with `b` gets a number under `mode`.
fn numbers_line(mode: NumberMode, b: u8) -> (yes: bool)
    ensures
        yes == is_numbered(mode, seq![b]),
{
    match mode {
        NumberMode::Plain => false,
        NumberMode::NumberAll => true,
        NumberMode::NumberNonBlank => {
            b != NEWLINE
        },
    }
}

/// A numbering emitter at work on one stream. It takes the stream piece by
/// piece and hands back what to write for each piece.
pub struct Numberer {
    mode: NumberMode,
    count: u64,
    fresh: bool,
    seen: Ghost<Seq<u8>>,
}

impl Numberer {
    /// The mode the emitter was made with.
    pub closed spec fn mode(&self) -> NumberMode {
        self.mode
    }

    /// Everything the emitter has been fed, in order.
    pub closed spec fn seen(&self) -> Seq<u8> {
        self.seen@
    }

    /// How many numbers the emitter has given out.
    pub open spec fn issued(&self) -> nat {
        numbered_count(records(self.seen()), self.mode())
    }

    /// The emitter's counter and its place in the line agree with what it has seen.
    pub closed spec fn wf(&self) -> bool {
        &&& self.count == numbered_count(records(self.seen@), self.mode)
        &&& self.fresh == at_line_start(self.seen@)
    }

    /// An emitter that has seen nothing: its first number will be one.
    pub fn new(mode: NumberMode) -> (emitter: Numberer)
        ensures
            emitter.wf(),
            emitter.mode() == mode,
            emitter.seen() == Seq::<u8>::empty(),
    {
        Numberer { mode, count: 0, fresh: true, seen: Ghost(Seq::empty()) }
    }

    /// The last number given out; zero before the first.
    pub fn last_number(&self) -> (n: u64)
        requires
            self.wf(),
        ensures
            n == self.issued(),
    {
        self.count
    }

    /// Takes the next piece of the stream and returns what to write for it:
    /// the output for all that was seen is the output so far and this.
    pub fn feed(&mut self, chunk: &[u8]) -> (out: Vec<u8>)
        requires
            old(self).wf(),
            old(self).issued() + chunk.len() <= u64::MAX,
        ensures
            final(self).wf(),
            final(self).mode() == old(self).mode(),
            final(self).seen() == old(self).seen() + chunk@,
            numbered(final(self).seen(), old(self).mode()) == numbered(
                old(self).seen(),
                old(self).mode(),
            ) + out@,
            old(self).mode() == NumberMode::Plain ==> out@ == chunk@,
    {
        let ghost start = self.seen@;
        let ghost first = self.count;
        let mut out: Vec<u8> = Vec::new();
        let mut i: usize = 0;
        while i < chunk.len()
            invariant
                i <= chunk.len(),
                self.mode == old(self).mode,
                self.seen@ == start + chunk@.take(i as int),
                self.wf(),
                self.count <= first + i,
                first + chunk.len() <= u64::MAX,
                numbered(self.seen@, self.mode) == numbered(start, self.mode) + out@,
            decreases chunk.len() - i,
        {
            let b = chunk[i];
            proof {
                lemma_numbered_push(self.seen@, b, self.mode);
                assert(start + chunk@.take(i + 1) =~= (start + chunk@.take(i as int)).push(b));
            }
            if self.fresh && numbers_line(self.mode, b) {
                self.count = self.count + 1;
                push_right_aligned(&mut out, self.count, NUMBER_WIDTH);
                out.push(TAB);
            }
            out.push(b);
            self.fresh = b == NEWLINE;
            self.seen = Ghost(self.seen@.push(b));
            i += 1;
        }
        proof {
            if self.mode == NumberMode::Plain {
                let whole = start + chunk@;
                assert(chunk@.take(chunk.len() as int) =~= chunk@);
                lemma_plain_unchanged(start);
                lemma_plain_unchanged(whole);
                assert(out@ =~= (start + out@).skip(start.len() as int));
                assert(chunk@ =~= whole.skip(start.len() as int));
            }
        }
        out
    }
}

/// Writes the whole stream `content` out again under `mode`.
pub fn emit_numbered(content: &[u8], mode: NumberMode) -> (out: Vec<u8>)
    ensures
        out@ == numbered(content@, mode),
        mode == NumberMode::Plain ==> out@ == content@,
{
    proof {
        lemma_plain_unchanged(content@);
    }
    let mut emitter = Numberer::new(mode);
    emitter.feed(content)
}

} // verus!
