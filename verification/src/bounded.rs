//! The bounded emitter: the head of a stream, up to a number of lines or a
//! number of bytes.

use vstd::prelude::*;
use crate::decimal::push_all;
use crate::lines::{
    lemma_records_push, lemma_records_shape, line_count, newline_count, records, NEWLINE,
};

verus! {

/// How much of a stream goes out.
#[derive(Clone, Copy, Debug, PartialEq, Eq, Structural)]
pub enum Limit {
    /// At most this many lines.
    Lines(usize),
    /// At most this many bytes.
    Bytes(usize),
}

/// The smaller of two numbers.
pub open spec fn least(a: nat, b: nat) -> nat {
    if a <= b {
        a
    } else {
        b
    }
}

/// The first `n` records of `s`; all of them where `s` has no more.
pub open spec fn first_records(s: Seq<u8>, n: nat) -> Seq<Seq<u8>> {
    records(s).take(least(n, records(s).len()) as int)
}

/// The first `n` lines of `s`, as they stand in it.
pub open spec fn head_lines(s: Seq<u8>, n: nat) -> Seq<u8> {
    first_records(s, n).flatten()
}

/// The first `n` bytes of `s`; all of it where `s` is shorter.
pub open spec fn head_bytes(s: Seq<u8>, n: nat) -> Seq<u8> {
    s.take(least(n, s.len()) as int)
}

/// What the emitter writes for the stream `s` under `limit`.
pub open spec fn bounded(s: Seq<u8>, limit: Limit) -> Seq<u8> {
    match limit {
        Limit::Lines(n) => head_lines(s, n as nat),
        Limit::Bytes(n) => head_bytes(s, n as nat),
    }
}

/// The stream `s` has used `limit` up: nothing that follows it goes out.
pub open spec fn is_full(s: Seq<u8>, limit: Limit) -> bool {
    match limit {
        Limit::Lines(n) => newline_count(s) >= n,
        Limit::Bytes(n) => s.len() >= n,
    }
}

/// What one more byte does to the first `n` lines: it joins them while
/// fewer than `n` lines are complete, and is left out from then on.
pub proof fn lemma_head_lines_push(s: Seq<u8>, b: u8, n: nat)
    ensures
        head_lines(s.push(b), n) == if newline_count(s) < n {
            head_lines(s, n).push(b)
        } else {
            head_lines(s, n)
        },
        newline_count(s) < n ==> first_records(s, n) == records(s) && head_lines(s, n) == s,
        newline_count(s) >= n ==> first_records(s.push(b), n) == first_records(s, n),
{
    let recs = records(s);
    let recs2 = records(s.push(b));
    lemma_records_push(s, b);
    lemma_records_shape(s);
    lemma_records_shape(s.push(b));
    if newline_count(s) < n {
        assert(recs.take(recs.len() as int) =~= recs);
        assert(recs2.take(recs2.len() as int) =~= recs2);
    } else {
        assert(first_records(s.push(b), n) =~= first_records(s, n));
    }
}

/// Once `n` lines are complete, nothing that follows changes the first `n` lines.
pub proof fn lemma_head_lines_full(s: Seq<u8>, t: Seq<u8>, n: nat)
    requires
        newline_count(s) >= n,
    ensures
        head_lines(s + t, n) == head_lines(s, n),
        first_records(s + t, n) == first_records(s, n),
        newline_count(s + t) >= n,
    decreases t.len(),
{
    if t.len() > 0 {
        let shorter = s + t.drop_last();
        lemma_head_lines_full(s, t.drop_last(), n);
        lemma_head_lines_push(shorter, t.last(), n);
        lemma_records_push(shorter, t.last());
        assert(s + t =~= shorter.push(t.last()));
    }
}

/// Once a stream has used its limit up, nothing that follows it goes out.
pub proof fn lemma_full_stays_full(s: Seq<u8>, t: Seq<u8>, limit: Limit)
    requires
        is_full(s, limit),
    ensures
        bounded(s + t, limit) == bounded(s, limit),
        is_full(s + t, limit),
{
    match limit {
        Limit::Lines(n) => {
            lemma_head_lines_full(s, t, n as nat);
        },
        Limit::Bytes(n) => {
            assert(head_bytes(s + t, n as nat) =~= head_bytes(s, n as nat));
        },
    }
}

/// The first `n` lines of a stream of `M` lines are its first `min(n, M)`
/// records, unchanged and in order, and they are that many lines.
pub proof fn lemma_head_lines_keeps_lines(s: Seq<u8>, n: nat)
    ensures
        records(head_lines(s, n)) == first_records(s, n),
        line_count(head_lines(s, n)) == least(n, line_count(s)),
        first_records(s, n).len() == least(n, line_count(s)),
    decreases s.len(),
{
    lemma_records_shape(s);
    lemma_records_shape(head_lines(s, n));
    if s.len() > 0 {
        let p = s.drop_last();
        lemma_head_lines_keeps_lines(p, n);
        lemma_head_lines_push(p, s.last(), n);
        lemma_records_push(p, s.last());
        lemma_records_shape(p);
    }
}

/// A bounded emitter at work on one stream. It takes the stream piece by
/// piece and says how much of each piece to write.
pub struct Bounded {
    limit: Limit,
    left: usize,
    seen: Ghost<Seq<u8>>,
}

/// What `limit` allows in all, in its own unit.
pub open spec fn allowance(limit: Limit) -> nat {
    match limit {
        Limit::Lines(n) => n as nat,
        Limit::Bytes(n) => n as nat,
    }
}

/// What `s` has used of `limit`, in the limit's unit.
pub open spec fn used(s: Seq<u8>, limit: Limit) -> nat {
    match limit {
        Limit::Lines(n) => newline_count(s),
        Limit::Bytes(n) => s.len(),
    }
}

impl Bounded {
    /// The limit the emitter was made with.
    pub closed spec fn limit(&self) -> Limit {
        self.limit
    }

    /// Everything the emitter has been fed, in order.
    pub closed spec fn seen(&self) -> Seq<u8> {
        self.seen@
    }

    /// The emitter's allowance agrees with what it has seen.
    pub closed spec fn wf(&self) -> bool {
        self.left == allowance(self.limit) - least(allowance(self.limit), used(self.seen@, self.limit))
    }

    /// An emitter that has seen nothing.
    pub fn new(limit: Limit) -> (emitter: Bounded)
        ensures
            emitter.wf(),
            emitter.limit() == limit,
            emitter.seen() == Seq::<u8>::empty(),
    {
        let left: usize = match limit {
            Limit::Lines(n) => n,
            Limit::Bytes(n) => n,
        };
        Bounded { limit, left, seen: Ghost(Seq::empty()) }
    }

    /// Whether the limit is used up, so that reading on is of no use.
    pub fn is_done(&self) -> (done: bool)
        requires
            self.wf(),
        ensures
            done == is_full(self.seen(), self.limit()),
    {
        self.left == 0
    }

    /// Takes the next piece of the stream and returns how many of its
    /// leading bytes to write: the output for all that was seen is the
    /// output so far and those bytes.
    pub fn feed(&mut self, chunk: &[u8]) -> (keep: usize)
        requires
            old(self).wf(),
        ensures
            final(self).wf(),
            final(self).limit() == old(self).limit(),
            final(self).seen() == old(self).seen() + chunk@,
            keep <= chunk@.len(),
            bounded(final(self).seen(), old(self).limit()) == bounded(
                old(self).seen(),
                old(self).limit(),
            ) + chunk@.take(keep as int),
    {
        let ghost start = self.seen@;
        match self.limit {
            Limit::Bytes(n) => {
                let keep: usize = if self.left < chunk.len() {
                    self.left
                } else {
                    chunk.len()
                };
                self.left = self.left - keep;
                self.seen = Ghost(start + chunk@);
                keep
            },
            Limit::Lines(n) => {
                let mut i: usize = 0;
                while i < chunk.len() && self.left > 0
                    invariant
                        i <= chunk.len(),
                        self.limit == Limit::Lines(n),
                        self.seen@ == start + chunk@.take(i as int),
                        self.wf(),
                        head_lines(self.seen@, n as nat) == head_lines(start, n as nat)
                            + chunk@.take(i as int),
                    decreases chunk.len() - i,
                {
                    let b = chunk[i];
                    proof {
                        lemma_head_lines_push(self.seen@, b, n as nat);
                        lemma_records_push(self.seen@, b);
                        assert(chunk@.take(i + 1) =~= chunk@.take(i as int).push(b));
                    }
                    if b == NEWLINE {
                        self.left = self.left - 1;
                    }
                    self.seen = Ghost(self.seen@.push(b));
                    i += 1;
                }
                proof {
                    let rest = chunk@.skip(i as int);
                    assert(self.seen@ + rest =~= start + chunk@);
                    if i < chunk.len() {
                        lemma_head_lines_full(self.seen@, rest, n as nat);
                    }
                }
                self.seen = Ghost(start + chunk@);
                i
            },
        }
    }
}

/// The head of the whole stream `content` under `limit`.
pub fn emit_bounded(content: &[u8], limit: Limit) -> (out: Vec<u8>)
    ensures
        out@ == bounded(content@, limit),
        limit matches Limit::Bytes(n) ==> out@.len() == least(n as nat, content@.len()),
        limit matches Limit::Lines(n) ==> line_count(out@) == least(n as nat, line_count(content@)),
{
    let mut emitter = Bounded::new(limit);
    let keep = emitter.feed(content);
    let mut out: Vec<u8> = Vec::new();
    push_all(&mut out, vstd::slice::slice_subrange(content, 0, keep));
    proof {
        if let Limit::Lines(n) = limit {
            lemma_head_lines_keeps_lines(content@, n as nat);
        }
    }
    out
}

} // verus!
