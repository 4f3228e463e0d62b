//! The configuration of the tool that counts.

use vstd::prelude::*;
use crate::batch::{batch_diagnostics, batch_output, run_batch, Engine, Input, Report};
use crate::config::{effective_files, files_or_stdin, texts, ConfigError};
use crate::counting::Selection;

verus! {

/// The counts that the four options ask for: those given, or lines, words
/// and bytes where none is given.
pub open spec fn chosen(lines: bool, words: bool, bytes: bool, chars: bool) -> Selection {
    if lines || words || bytes || chars {
        Selection { lines, words, bytes, chars }
    } else {
        Selection { lines: true, words: true, bytes: true, chars: false }
    }
}

/// What the tool was asked to do: the files, and which counts to report.
/// There is at least one file and at least one count, and bytes and
/// characters are not both among the counts.
#[derive(Debug)]
pub struct Config {
    files: Vec<String>,
    lines: bool,
    words: bool,
    bytes: bool,
    chars: bool,
}

impl Config {
    #[verifier::type_invariant]
    spec fn valid(&self) -> bool {
        &&& self.files@.len() > 0
        &&& !(self.bytes && self.chars)
        &&& (self.lines || self.words || self.bytes || self.chars)
    }

    /// The files, in order, each as its text.
    pub closed spec fn file_names(&self) -> Seq<Seq<char>> {
        texts(self.files@)
    }

    /// The counts to report.
    pub closed spec fn selection_of(&self) -> Selection {
        Selection { lines: self.lines, words: self.words, bytes: self.bytes, chars: self.chars }
    }

    /// Makes a configuration of the files named and the four options.
    ///
    /// Bytes and characters together are refused. Where no option is given
    /// the tool reports lines, words and bytes; where no file is named it
    /// reads standard input.
    pub fn new(files: Vec<String>, lines: bool, words: bool, bytes: bool, chars: bool) -> (made:
        Result<Config, ConfigError>)
        ensures
            match made {
                Ok(config) => {
                    &&& !(bytes && chars)
                    &&& config.file_names() == effective_files(files@)
                    &&& config.selection_of() == chosen(lines, words, bytes, chars)
                },
                Err(error) => bytes && chars && error is BothSizes,
            },
    {
        if bytes && chars {
            return Err(ConfigError::BothSizes);
        }
        let files = files_or_stdin(files);
        if lines || words || bytes || chars {
            Ok(Config { files, lines, words, bytes, chars })
        } else {
            Ok(Config { files, lines: true, words: true, bytes: true, chars: false })
        }
    }

    /// The files, in order.
    pub fn files(&self) -> (files: &Vec<String>)
        ensures
            files@.len() > 0,
            texts(files@) == self.file_names(),
    {
        proof {
            use_type_invariant(self);
        }
        &self.files
    }

    /// The counts to report: at least one, and not both bytes and characters.
    pub fn selection(&self) -> (selection: Selection)
        ensures
            selection == self.selection_of(),
            selection.lines || selection.words || selection.bytes || selection.chars,
            !(selection.bytes && selection.chars),
    {
        proof {
            use_type_invariant(self);
        }
        Selection { lines: self.lines, words: self.words, bytes: self.bytes, chars: self.chars }
    }
}

/// Reports for every file the counts that the configuration asks for.
///
/// `inputs` holds, for each file in order, the token that names it and
/// what became of it. The report is what the run writes on its two
/// channels; a file that failed has its diagnostic there and stops nothing.
pub fn run(config: &Config, inputs: &Vec<Input>) -> (report: Report)
    ensures
        report.out@ == batch_output(Engine::Count(config.selection_of()), inputs@, inputs@.len() as int),
        texts(report.err@) == batch_diagnostics(inputs@, inputs@.len() as int),
{
    run_batch(Engine::Count(config.selection()), inputs)
}

} // verus!
