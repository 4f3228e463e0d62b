//! The configuration of the tool that writes files out, numbered or not.

use vstd::prelude::*;
use crate::batch::{batch_diagnostics, batch_output, run_batch, Engine, Input, Report};
use crate::config::{effective_files, files_or_stdin, texts, ConfigError};
use crate::numbering::NumberMode;

verus! {

/// The mode that the two numbering options ask for.
pub open spec fn mode_for(number_lines: bool, number_nonblank_lines: bool) -> NumberMode {
    if number_lines {
        NumberMode::NumberAll
    } else if number_nonblank_lines {
        NumberMode::NumberNonBlank
    } else {
        NumberMode::Plain
    }
}

/// What the tool was asked to do: the files, and which lines get a number.
/// There is at least one file, and at most one way of numbering.
#[derive(Debug)]
pub struct Config {
    files: Vec<String>,
    number_lines: bool,
    number_nonblank_lines: bool,
}

impl Config {
    #[verifier::type_invariant]
    spec fn valid(&self) -> bool {
        &&& self.files@.len() > 0
        &&& !(self.number_lines && self.number_nonblank_lines)
    }

    /// The files, in order, each as its text.
    pub closed spec fn file_names(&self) -> Seq<Seq<char>> {
        texts(self.files@)
    }

    /// Which lines get a number.
    pub closed spec fn mode_of(&self) -> NumberMode {
        mode_for(self.number_lines, self.number_nonblank_lines)
    }

    /// Makes a configuration of the files named and the two numbering options.
    ///
    /// Both options together are refused. Where no file is named the tool
    /// reads standard input.
    pub fn new(files: Vec<String>, number_lines: bool, number_nonblank_lines: bool) -> (made:
        Result<Config, ConfigError>)
        ensures
            match made {
                Ok(config) => {
                    &&& !(number_lines && number_nonblank_lines)
                    &&& config.file_names() == effective_files(files@)
                    &&& config.mode_of() == mode_for(number_lines, number_nonblank_lines)
                },
                Err(error) => number_lines && number_nonblank_lines
                    && error is BothNumberings,
            },
    {
        if number_lines && number_nonblank_lines {
            return Err(ConfigError::BothNumberings);
        }
        Ok(Config { files: files_or_stdin(files), number_lines, number_nonblank_lines })
    }

    /// The files, in order.
    pub fn files(&self) -> (files: &Vec<String>)
        ensures
            files@.len() > 0,
            texts(files@) == self.file_names(),
    {
        proof {
            use_type_invariant(self);
        }
        &self.files
    }

    /// Whether every line gets a number.
    pub fn number_lines(&self) -> (yes: bool)
        ensures
            yes == (self.mode_of() == NumberMode::NumberAll),
    {
        proof {
            use_type_invariant(self);
        }
        self.number_lines
    }

    /// Whether every line that is not blank gets a number.
    pub fn number_nonblank_lines(&self) -> (yes: bool)
        ensures
            yes == (self.mode_of() == NumberMode::NumberNonBlank),
    {
        proof {
            use_type_invariant(self);
        }
        self.number_nonblank_lines
    }

    /// Which lines get a number.
    pub fn mode(&self) -> (mode: NumberMode)
        ensures
            mode == self.mode_of(),
    {
        if self.number_lines {
            NumberMode::NumberAll
        } else if self.number_nonblank_lines {
            NumberMode::NumberNonBlank
        } else {
            NumberMode::Plain
        }
    }
}

/// Writes every file out again, its lines numbered as the configuration says.
///
/// `inputs` holds, for each file in order, the token that names it and
/// what became of it. The report is what the run writes on its two
/// channels; a file that failed has its diagnostic there and stops nothing.
pub fn run(config: &Config, inputs: &Vec<Input>) -> (report: Report)
    ensures
        report.out@ == batch_output(Engine::Number(config.mode_of()), inputs@, inputs@.len() as int),
        texts(report.err@) == batch_diagnostics(inputs@, inputs@.len() as int),
{
    run_batch(Engine::Number(config.mode()), inputs)
}

} // verus!
