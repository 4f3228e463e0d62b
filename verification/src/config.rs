//! What the three tools' configurations share: the errors that refuse one,
//! and the file list that stands for "no file named".

use vstd::prelude::*;
use vstd::string::*;

verus! {

/// Why a configuration is refused. Each is found before any file is touched.
#[derive(Debug)]
pub enum ConfigError {
    /// Numbering all lines and numbering the lines that are not blank were both asked for.
    BothNumberings,
    /// A limit in lines and a limit in bytes were both given.
    BothLimits,
    /// A count of bytes and a count of characters were both asked for.
    BothSizes,
    /// The limit in lines is no positive number; the text is what was given.
    IllegalLineCount(String),
    /// The limit in bytes is no positive number; the text is what was given.
    IllegalByteCount(String),
}

/// The text that reports `error`.
pub open spec fn error_text(error: ConfigError) -> Seq<char> {
    match error {
        ConfigError::BothNumberings => "--number-nonblank cannot be used with --number"@,
        ConfigError::BothLimits => "--bytes cannot be used with --lines"@,
        ConfigError::BothSizes => "--bytes cannot be used with --chars"@,
        ConfigError::IllegalLineCount(given) => "illegal line count -- "@ + given@,
        ConfigError::IllegalByteCount(given) => "illegal byte count -- "@ + given@,
    }
}

impl ConfigError {
    /// The text that reports this error.
    pub fn message(&self) -> (text: String)
        ensures
            text@ == error_text(*self),
    {
        match self {
            ConfigError::BothNumberings => "--number-nonblank cannot be used with --number".to_owned(),
            ConfigError::BothLimits => "--bytes cannot be used with --lines".to_owned(),
            ConfigError::BothSizes => "--bytes cannot be used with --chars".to_owned(),
            ConfigError::IllegalLineCount(given) => "illegal line count -- ".to_owned().concat(
                given.as_str(),
            ),
            ConfigError::IllegalByteCount(given) => "illegal byte count -- ".to_owned().concat(
                given.as_str(),
            ),
        }
    }
}

/// The token that names standard input.
pub open spec fn stdin_token() -> Seq<char> {
    "-"@
}

/// The files a tool works on: those named, in order; standard input where
/// none is named.
pub open spec fn effective_files(named: Seq<String>) -> Seq<Seq<char>> {
    if named.len() == 0 {
        seq![stdin_token()]
    } else {
        Seq::new(named.len(), |i: int| named[i]@)
    }
}

/// The strings of `list`, each as its text.
pub open spec fn texts(list: Seq<String>) -> Seq<Seq<char>> {
    Seq::new(list.len(), |i: int| list[i]@)
}

/// The file list of a configuration: `named` itself, or the one token for
/// standard input where `named` is empty.
pub fn files_or_stdin(named: Vec<String>) -> (files: Vec<String>)
    ensures
        files@.len() > 0,
        texts(files@) == effective_files(named@),
{
    if named.len() == 0 {
        let mut files: Vec<String> = Vec::new();
        files.push("-".to_owned());
        files
    } else {
        named
    }
}

} // verus!
