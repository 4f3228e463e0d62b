//! Working through a list of files: which source a token names, the banner
//! in front of a file's output, the diagnostics for files that fail, and
//! the whole run as a function of what became of each file.
//!
//! A file that fails costs the others nothing: it adds a diagnostic to the
//! error channel, and the run goes on with the next.

use vstd::prelude::*;
use vstd::string::*;
use vstd::utf8::encode_utf8;
use crate::bounded::{bounded, emit_bounded, Limit};
use crate::config::{stdin_token, texts};
use crate::counting::{count, render_counts, rendered_counts, Selection};
use crate::decimal::push_all;
use crate::lines::NEWLINE;
use crate::numbering::{emit_numbered, numbered, NumberMode};

verus! {

/// Where a token's bytes come from.
#[derive(Clone, Copy, Debug, PartialEq, Eq, Structural)]
pub enum Source {
    /// The process's standard input.
    Stdin,
    /// The file that the token names.
    Path,
}

/// The source that `token` names: standard input for a single hyphen, a
/// file of that name for anything else.
pub fn source_of(token: &str) -> (source: Source)
    ensures
        source == if token@ == stdin_token() {
            Source::Stdin
        } else {
            Source::Path
        },
{
    proof {
        reveal_strlit("-");
    }
    if token.is_ascii() {
        let bytes = token.as_bytes();
        proof {
            is_ascii_spec_bytes(token);
        }
        if bytes.len() == 1 && bytes[0] == 45 {
            assert(token@ =~= "-"@);
            Source::Stdin
        } else {
            Source::Path
        }
    } else {
        Source::Path
    }
}

/// The diagnostic for a file that could not be opened.
pub open spec fn open_failure_text(path: Seq<char>, cause: Seq<char>) -> Seq<char> {
    "Failed to open "@ + path + ": "@ + cause
}

/// The diagnostic for a file that failed while it was read.
pub open spec fn read_failure_text(path: Seq<char>, cause: Seq<char>) -> Seq<char> {
    "Failed to read from "@ + path + ": "@ + cause
}

/// Writes the diagnostic for a file that could not be opened.
pub fn open_failure(path: &str, cause: &str) -> (text: String)
    ensures
        text@ == open_failure_text(path@, cause@),
{
    "Failed to open ".to_owned().concat(path).concat(": ").concat(cause)
}

/// Writes the diagnostic for a file that failed while it was read.
pub fn read_failure(path: &str, cause: &str) -> (text: String)
    ensures
        text@ == read_failure_text(path@, cause@),
{
    "Failed to read from ".to_owned().concat(path).concat(": ").concat(cause)
}

/// What opens a banner: `==> `.
pub open spec fn banner_open() -> Seq<u8> {
    seq![61u8, 61u8, 62u8, 32u8]
}

/// What closes a banner: ` <==`.
pub open spec fn banner_close() -> Seq<u8> {
    seq![32u8, 60u8, 61u8, 61u8]
}

/// The banner line for the file `path`. Every banner but the first of a run
/// has a blank line in front of it.
pub open spec fn banner(path: Seq<char>, first: bool) -> Seq<u8> {
    (if first {
        Seq::<u8>::empty()
    } else {
        seq![NEWLINE]
    }) + banner_open() + encode_utf8(path) + banner_close() + seq![NEWLINE]
}

/// What goes out in front of a file's output in a run of `total` files: its
/// banner where the run has more than one file, nothing where it has not.
pub open spec fn banner_for(total: nat, first: bool, path: Seq<char>) -> Seq<u8> {
    if total > 1 {
        banner(path, first)
    } else {
        Seq::empty()
    }
}

/// The state of a run: how many files it has, and whether a banner has gone out.
pub struct Batch {
    total: usize,
    shown: bool,
}

impl Batch {
    /// How many files the run has.
    pub closed spec fn total(&self) -> nat {
        self.total as nat
    }

    /// Whether a banner has gone out.
    pub closed spec fn shown(&self) -> bool {
        self.shown
    }

    /// The state at the start of a run of `total` files.
    pub fn new(total: usize) -> (batch: Batch)
        ensures
            batch.total() == total,
            !batch.shown(),
    {
        Batch { total, shown: false }
    }

    /// What to write in front of the output of the file `path`, which has
    /// just been opened.
    pub fn banner(&mut self, path: &str) -> (out: Vec<u8>)
        ensures
            final(self).total() == old(self).total(),
            final(self).shown() == (old(self).shown() || old(self).total() > 1),
            out@ == banner_for(old(self).total(), !old(self).shown(), path@),
    {
        let mut out: Vec<u8> = Vec::new();
        if self.total > 1 {
            if self.shown {
                out.push(NEWLINE);
            }
            out.push(61);
            out.push(61);
            out.push(62);
            out.push(32);
            push_all(&mut out, path.as_bytes());
            out.push(32);
            out.push(60);
            out.push(61);
            out.push(61);
            out.push(NEWLINE);
            self.shown = true;
        }
        out
    }
}

/// The engine that a run hands each stream to.
#[derive(Clone, Copy, Debug, PartialEq, Eq, Structural)]
pub enum Engine {
    /// The numbering emitter.
    Number(NumberMode),
    /// The bounded emitter.
    Head(Limit),
    /// The counting engine.
    Count(Selection),
}

/// What `engine` writes for a stream `s` that was read to its end.
pub open spec fn rendering(engine: Engine, s: Seq<u8>) -> Seq<u8> {
    match engine {
        Engine::Number(mode) => numbered(s, mode),
        Engine::Head(limit) => bounded(s, limit),
        Engine::Count(selection) => rendered_counts(s, selection),
    }
}

/// What `engine` has written for a stream when reading fails after `s`: the
/// emitters have written what `s` gives, the counting engine nothing yet.
pub open spec fn partial_rendering(engine: Engine, s: Seq<u8>) -> Seq<u8> {
    match engine {
        Engine::Count(selection) => Seq::empty(),
        _ => rendering(engine, s),
    }
}

impl Engine {
    /// Writes what the engine gives for the whole stream `content`.
    pub fn render(&self, content: &[u8]) -> (out: Vec<u8>)
        ensures
            out@ == rendering(*self, content@),
    {
        match self {
            Engine::Number(mode) => emit_numbered(content, *mode),
            Engine::Head(limit) => emit_bounded(content, *limit),
            Engine::Count(selection) => {
                let counts = count(content);
                render_counts(&counts, selection)
            },
        }
    }

    /// Writes what the engine gives for `content` when reading failed after it.
    pub fn render_partial(&self, content: &[u8]) -> (out: Vec<u8>)
        ensures
            out@ == partial_rendering(*self, content@),
    {
        match self {
            Engine::Count(selection) => Vec::new(),
            _ => self.render(content),
        }
    }
}

/// What became of one file of a run.
#[derive(Debug)]
pub enum Outcome {
    /// It could not be opened; the text says why.
    Unopened(String),
    /// It was read to its end; these are its bytes.
    Read(Vec<u8>),
    /// Reading failed after these bytes; the text says why.
    Cut(Vec<u8>, String),
}

/// One file of a run: the token that names it, and what became of it.
#[derive(Debug)]
pub struct Input {
    pub path: String,
    pub outcome: Outcome,
}

/// What a run wrote: the bytes on the output channel, and the diagnostics
/// on the error channel, one line each.
#[derive(Debug)]
pub struct Report {
    pub out: Vec<u8>,
    pub err: Vec<String>,
}

/// The file was opened.
pub open spec fn opened(outcome: Outcome) -> bool {
    !(outcome is Unopened)
}

/// None of the first `k` files was opened.
pub open spec fn none_opened(inputs: Seq<Input>, k: int) -> bool {
    forall|j: int| 0 <= j < k ==> !opened(#[trigger] inputs[j].outcome)
}

/// What one file adds to the output channel in a run of `total` files.
/// `first` says that no file was opened before it.
pub open spec fn file_output(engine: Engine, total: nat, first: bool, input: Input) -> Seq<u8> {
    match input.outcome {
        Outcome::Unopened(cause) => Seq::empty(),
        Outcome::Read(content) => banner_for(total, first, input.path@) + rendering(
            engine,
            content@,
        ),
        Outcome::Cut(content, cause) => banner_for(total, first, input.path@) + partial_rendering(
            engine,
            content@,
        ),
    }
}

/// What one file adds to the error channel.
pub open spec fn file_diagnostics(input: Input) -> Seq<Seq<char>> {
    match input.outcome {
        Outcome::Unopened(cause) => seq![open_failure_text(input.path@, cause@)],
        Outcome::Read(content) => Seq::empty(),
        Outcome::Cut(content, cause) => seq![read_failure_text(input.path@, cause@)],
    }
}

/// What the first `k` files of a run add to the output channel, in order.
pub open spec fn batch_output(engine: Engine, inputs: Seq<Input>, k: int) -> Seq<u8>
    decreases k,
{
    if k <= 0 {
        Seq::empty()
    } else {
        batch_output(engine, inputs, k - 1) + file_output(
            engine,
            inputs.len(),
            none_opened(inputs, k - 1),
            inputs[k - 1],
        )
    }
}

/// What the first `k` files of a run add to the error channel, in order.
pub open spec fn batch_diagnostics(inputs: Seq<Input>, k: int) -> Seq<Seq<char>>
    decreases k,
{
    if k <= 0 {
        Seq::empty()
    } else {
        batch_diagnostics(inputs, k - 1) + file_diagnostics(inputs[k - 1])
    }
}

/// Runs `engine` over the files of `inputs` in order.
///
/// Every file that was opened has its output on the output channel, behind
/// a banner where the run has more than one file. Every file that failed
/// has a diagnostic on the error channel, and the run goes on behind it.
pub fn run_batch(engine: Engine, inputs: &Vec<Input>) -> (report: Report)
    ensures
        report.out@ == batch_output(engine, inputs@, inputs@.len() as int),
        texts(report.err@) == batch_diagnostics(inputs@, inputs@.len() as int),
{
    let mut batch = Batch::new(inputs.len());
    let mut out: Vec<u8> = Vec::new();
    let mut err: Vec<String> = Vec::new();
    let mut k: usize = 0;
    while k < inputs.len()
        invariant
            k <= inputs.len(),
            batch.total() == inputs@.len(),
            batch.shown() == (inputs@.len() > 1 && !none_opened(inputs@, k as int)),
            out@ == batch_output(engine, inputs@, k as int),
            texts(err@) == batch_diagnostics(inputs@, k as int),
        decreases inputs.len() - k,
    {
        let input = &inputs[k];
        let path = input.path.as_str();
        match &input.outcome {
            Outcome::Unopened(cause) => {
                err.push(open_failure(path, cause.as_str()));
            },
            Outcome::Read(content) => {
                let head = batch.banner(path);
                push_all(&mut out, head.as_slice());
                let body = engine.render(content.as_slice());
                push_all(&mut out, body.as_slice());
            },
            Outcome::Cut(content, cause) => {
                let head = batch.banner(path);
                push_all(&mut out, head.as_slice());
                let body = engine.render_partial(content.as_slice());
                push_all(&mut out, body.as_slice());
                err.push(read_failure(path, cause.as_str()));
            },
        }
        k += 1;
    }
    Report { out, err }
}

/// A run of one file that was read to its end writes that file's output
/// and no banner.
pub proof fn lemma_single_file_has_no_banner(engine: Engine, inputs: Seq<Input>)
    requires
        inputs.len() == 1,
        inputs[0].outcome is Read,
    ensures
        batch_output(engine, inputs, 1) == rendering(engine, inputs[0].outcome->Read_0@),
        batch_diagnostics(inputs, 1) == Seq::<Seq<char>>::empty(),
{
    reveal_with_fuel(batch_output, 2);
    reveal_with_fuel(batch_diagnostics, 2);
}

/// A run of two files that were both read to their ends writes the banner
/// of the first, its output, a blank line, the banner of the second and its
/// output, and no diagnostic.
pub proof fn lemma_two_files_have_banners(engine: Engine, inputs: Seq<Input>)
    requires
        inputs.len() == 2,
        inputs[0].outcome is Read,
        inputs[1].outcome is Read,
    ensures
        batch_output(engine, inputs, 2) == banner(inputs[0].path@, true) + rendering(
            engine,
            inputs[0].outcome->Read_0@,
        ) + banner(inputs[1].path@, false) + rendering(engine, inputs[1].outcome->Read_0@),
        banner(inputs[1].path@, false) == seq![NEWLINE] + banner(inputs[1].path@, true),
        batch_diagnostics(inputs, 2) == Seq::<Seq<char>>::empty(),
{
    reveal_with_fuel(batch_output, 3);
    reveal_with_fuel(batch_diagnostics, 3);
    assert(!none_opened(inputs, 1));
}

/// A file that cannot be opened costs the next one nothing: the run of the
/// two writes one diagnostic, for the first, and the whole output of the
/// second behind its banner, which is the first banner of the run.
pub proof fn lemma_failure_is_isolated(engine: Engine, inputs: Seq<Input>)
    requires
        inputs.len() == 2,
        inputs[0].outcome is Unopened,
        inputs[1].outcome is Read,
    ensures
        batch_output(engine, inputs, 2) == banner(inputs[1].path@, true) + rendering(
            engine,
            inputs[1].outcome->Read_0@,
        ),
        batch_diagnostics(inputs, 2) == seq![
            open_failure_text(inputs[0].path@, inputs[0].outcome->Unopened_0@),
        ],
{
    reveal_with_fuel(batch_output, 3);
    reveal_with_fuel(batch_diagnostics, 3);
}

} // verus!
