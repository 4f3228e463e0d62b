//! The counting engine: the lines, words, bytes and characters of a stream.
//!
//! All four are counted on the bytes as they came. A word is a maximal run
//! of bytes that are not white space; white space is the blank and the
//! control bytes from tab to carriage return. A character is counted at
//! every byte that does not continue a UTF-8 sequence, which for well-formed
//! UTF-8 is the number of scalar values.

use vstd::prelude::*;
use vstd::utf8::{decode_utf8, length_of_first_scalar, pop_first_scalar, valid_utf8};
use crate::decimal::{push_right_aligned, right_aligned};
use crate::lines::{at_line_start, lemma_records_push, line_count, newline_count, NEWLINE};

verus! {

/// The width of the field that holds one count.
pub const COUNT_WIDTH: usize = 8;

/// White space: the blank, tab, newline, vertical tab, form feed and
/// carriage return.
pub open spec fn is_space(b: u8) -> bool {
    b == 32 || (9 <= b && b <= 13)
}

/// A word begins at place `i` of `s`: the byte there is no white space, and
/// it begins the stream or follows white space.
pub open spec fn starts_word(s: Seq<u8>, i: int) -> bool {
    !is_space(s[i]) && (i == 0 || is_space(s[i - 1]))
}

/// How many words `s` holds: the places at which a word begins.
pub open spec fn word_count(s: Seq<u8>) -> nat
    decreases s.len(),
{
    if s.len() == 0 {
        0
    } else {
        word_count(s.drop_last()) + if starts_word(s, s.len() - 1) { 1nat } else { 0nat }
    }
}

/// The byte begins a character: it is no continuation byte of UTF-8.
pub open spec fn begins_char(b: u8) -> bool {
    !(0x80 <= b && b <= 0xbf)
}

/// How many characters `s` holds: the bytes that begin one.
pub open spec fn char_count(s: Seq<u8>) -> nat
    decreases s.len(),
{
    if s.len() == 0 {
        0
    } else {
        char_count(s.drop_last()) + if begins_char(s.last()) { 1nat } else { 0nat }
    }
}

/// The four counts of a stream.
#[derive(Clone, Copy, Debug, PartialEq, Eq, Structural)]
pub struct Counts {
    pub lines: usize,
    pub words: usize,
    pub bytes: usize,
    pub chars: usize,
}

impl Counts {
    /// These are the counts of the stream `s`.
    pub open spec fn describes(&self, s: Seq<u8>) -> bool {
        &&& self.lines == line_count(s)
        &&& self.words == word_count(s)
        &&& self.bytes == s.len()
        &&& self.chars == char_count(s)
    }
}

/// What one more byte does to the counts of words and characters.
pub proof fn lemma_counts_push(s: Seq<u8>, b: u8)
    ensures
        word_count(s.push(b)) == word_count(s) + if !is_space(b) && (s.len() == 0 || is_space(
            s.last(),
        )) {
            1nat
        } else {
            0nat
        },
        char_count(s.push(b)) == char_count(s) + if begins_char(b) { 1nat } else { 0nat },
{
    assert(s.push(b).drop_last() =~= s);
}

/// No count is larger than the number of bytes.
pub proof fn lemma_counts_bounded(s: Seq<u8>)
    ensures
        line_count(s) <= s.len(),
        word_count(s) <= s.len(),
        char_count(s) <= s.len(),
    decreases s.len(),
{
    if s.len() > 0 {
        lemma_counts_bounded(s.drop_last());
    }
}

/// Counts only grow while a stream is read: those of a stream are at least
/// those of any stream that it begins with.
pub proof fn lemma_counts_grow(s: Seq<u8>, t: Seq<u8>)
    ensures
        line_count(s) <= line_count(s + t),
        word_count(s) <= word_count(s + t),
        char_count(s) <= char_count(s + t),
        newline_count(s) <= newline_count(s + t),
    decreases t.len(),
{
    if t.len() > 0 {
        let shorter = s + t.drop_last();
        lemma_counts_grow(s, t.drop_last());
        lemma_counts_push(shorter, t.last());
        lemma_records_push(shorter, t.last());
        assert(s + t =~= shorter.push(t.last()));
    }
}

/// A stream has no word exactly when it is empty or all white space.
pub proof fn lemma_no_words_iff_blank(s: Seq<u8>)
    ensures
        word_count(s) == 0 <==> (forall|i: int| 0 <= i < s.len() ==> is_space(#[trigger] s[i])),
    decreases s.len(),
{
    if s.len() > 0 {
        let p = s.drop_last();
        lemma_no_words_iff_blank(p);
        if word_count(s) == 0 {
            assert forall|i: int| 0 <= i < s.len() implies is_space(#[trigger] s[i]) by {
                if i < p.len() {
                    assert(is_space(p[i]));
                }
            }
        }
        if forall|i: int| 0 <= i < s.len() ==> is_space(#[trigger] s[i]) {
            assert(forall|i: int| 0 <= i < p.len() ==> is_space(#[trigger] p[i]));
        }
    }
}

/// The characters of two streams put together are those of the one and
/// those of the other.
pub proof fn lemma_char_count_concat(s: Seq<u8>, t: Seq<u8>)
    ensures
        char_count(s + t) == char_count(s) + char_count(t),
    decreases t.len(),
{
    if t.len() > 0 {
        lemma_char_count_concat(s, t.drop_last());
        assert((s + t).drop_last() =~= s + t.drop_last());
    }
}

/// On well-formed UTF-8 the count of characters is the number of scalar
/// values that the bytes decode to.
pub proof fn lemma_char_count_utf8(s: Seq<u8>)
    requires
        valid_utf8(s),
    ensures
        char_count(s) == decode_utf8(s).len(),
    decreases s.len(),
{
    if s.len() > 0 {
        let width = length_of_first_scalar(s);
        let first = s.subrange(0, width);
        let rest = pop_first_scalar(s);
        assert(s =~= first + rest);
        lemma_char_count_utf8(rest);
        lemma_char_count_concat(first, rest);
        assert(char_count(first) == 1) by {
            reveal_with_fuel(char_count, 5);
        }
    }
}

/// A counting engine at work on one stream. It takes the stream piece by
/// piece; its counts are those of all it has taken.
pub struct Counter {
    newlines: usize,
    words: usize,
    bytes: usize,
    chars: usize,
    in_word: bool,
    fresh: bool,
    seen: Ghost<Seq<u8>>,
}

impl Counter {
    /// Everything the engine has been fed, in order.
    pub closed spec fn seen(&self) -> Seq<u8> {
        self.seen@
    }

    /// The engine's tallies agree with what it has seen.
    pub closed spec fn wf(&self) -> bool {
        &&& self.bytes == self.seen@.len()
        &&& self.newlines == newline_count(self.seen@)
        &&& self.words == word_count(self.seen@)
        &&& self.chars == char_count(self.seen@)
        &&& self.in_word == (self.seen@.len() > 0 && !is_space(self.seen@.last()))
        &&& self.fresh == at_line_start(self.seen@)
    }

    /// An engine that has seen nothing.
    pub fn new() -> (engine: Counter)
        ensures
            engine.wf(),
            engine.seen() == Seq::<u8>::empty(),
    {
        Counter {
            newlines: 0,
            words: 0,
            bytes: 0,
            chars: 0,
            in_word: false,
            fresh: true,
            seen: Ghost(Seq::empty()),
        }
    }

    /// How many bytes the engine has taken.
    pub fn bytes_seen(&self) -> (n: usize)
        requires
            self.wf(),
        ensures
            n == self.seen().len(),
    {
        self.bytes
    }

    /// Takes the next piece of the stream.
    pub fn feed(&mut self, chunk: &[u8])
        requires
            old(self).wf(),
            old(self).seen().len() + chunk.len() <= usize::MAX,
        ensures
            final(self).wf(),
            final(self).seen() == old(self).seen() + chunk@,
    {
        let ghost start = self.seen@;
        let mut i: usize = 0;
        while i < chunk.len()
            invariant
                i <= chunk.len(),
                start.len() + chunk.len() <= usize::MAX,
                self.seen@ == start + chunk@.take(i as int),
                self.wf(),
            decreases chunk.len() - i,
        {
            let b = chunk[i];
            proof {
                lemma_counts_push(self.seen@, b);
                lemma_records_push(self.seen@, b);
                lemma_counts_bounded(self.seen@.push(b));
                assert(start + chunk@.take(i + 1) =~= (start + chunk@.take(i as int)).push(b));
            }
            let space = b == 32 || (9 <= b && b <= 13);
            if !space && !self.in_word {
                self.words = self.words + 1;
            }
            if !(0x80 <= b && b <= 0xbf) {
                self.chars = self.chars + 1;
            }
            if b == NEWLINE {
                self.newlines = self.newlines + 1;
            }
            self.bytes = self.bytes + 1;
            self.in_word = !space;
            self.fresh = b == NEWLINE;
            self.seen = Ghost(self.seen@.push(b));
            i += 1;
        }
    }

    /// The counts of all that the engine has taken.
    pub fn counts(&self) -> (counts: Counts)
        requires
            self.wf(),
        ensures
            counts.describes(self.seen()),
    {
        proof {
            lemma_counts_bounded(self.seen@);
        }
        let lines: usize = if self.fresh {
            self.newlines
        } else {
            self.newlines + 1
        };
        Counts { lines, words: self.words, bytes: self.bytes, chars: self.chars }
    }
}

/// The counts of the whole stream `content`.
pub fn count(content: &[u8]) -> (counts: Counts)
    ensures
        counts.describes(content@),
        counts.words == 0 <==> (forall|i: int| 0 <= i < content@.len() ==> is_space(
            #[trigger] content@[i],
        )),
{
    let mut engine = Counter::new();
    engine.feed(content);
    proof {
        lemma_no_words_iff_blank(content@);
    }
    engine.counts()
}

/// Which of the four counts are asked for.
#[derive(Clone, Copy, Debug, PartialEq, Eq, Structural)]
pub struct Selection {
    pub lines: bool,
    pub words: bool,
    pub bytes: bool,
    pub chars: bool,
}

/// One count as it is written: right-aligned in eight places where it is
/// asked for, nothing where it is not.
pub open spec fn count_field(asked: bool, n: nat) -> Seq<u8> {
    if asked {
        right_aligned(n, COUNT_WIDTH as nat)
    } else {
        Seq::empty()
    }
}

/// The line that reports four counts: those asked for, in the order lines,
/// words, bytes, characters, and a newline.
pub open spec fn count_line(
    lines: nat,
    words: nat,
    bytes: nat,
    chars: nat,
    selection: Selection,
) -> Seq<u8> {
    count_field(selection.lines, lines) + count_field(selection.words, words) + count_field(
        selection.bytes,
        bytes,
    ) + count_field(selection.chars, chars) + seq![NEWLINE]
}

/// The line that reports the counts of the stream `s`.
pub open spec fn rendered_counts(s: Seq<u8>, selection: Selection) -> Seq<u8> {
    count_line(line_count(s), word_count(s), s.len(), char_count(s), selection)
}

/// Writes the line that reports `counts`.
pub fn render_counts(counts: &Counts, selection: &Selection) -> (out: Vec<u8>)
    ensures
        out@ == count_line(
            counts.lines as nat,
            counts.words as nat,
            counts.bytes as nat,
            counts.chars as nat,
            *selection,
        ),
{
    let mut out: Vec<u8> = Vec::new();
    if selection.lines {
        push_right_aligned(&mut out, counts.lines as u64, COUNT_WIDTH);
    }
    if selection.words {
        push_right_aligned(&mut out, counts.words as u64, COUNT_WIDTH);
    }
    if selection.bytes {
        push_right_aligned(&mut out, counts.bytes as u64, COUNT_WIDTH);
    }
    if selection.chars {
        push_right_aligned(&mut out, counts.chars as u64, COUNT_WIDTH);
    }
    out.push(NEWLINE);
    out
}

} // verus!
