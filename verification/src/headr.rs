//! The configuration of the tool that keeps the head of each file.

use vstd::prelude::*;
use vstd::string::*;
use crate::batch::{batch_diagnostics, batch_output, run_batch, Engine, Input, Report};
use crate::bounded::{allowance, Limit};
use crate::config::{effective_files, files_or_stdin, texts, ConfigError};

verus! {

/// How many lines go out where no limit is given.
pub const DEFAULT_LINES: usize = 10;

/// A decimal digit.
pub open spec fn is_digit(c: char) -> bool {
    '0' <= c && c <= '9'
}

/// The number that a run of digits writes; zero for none.
pub open spec fn digits_value(digits: Seq<char>) -> nat
    decreases digits.len(),
{
    if digits.len() == 0 {
        0
    } else {
        digits_value(digits.drop_last()) * 10 + (digits.last() as nat - '0' as nat) as nat
    }
}

/// `text` without the plus sign that may lead it.
pub open spec fn unsigned_part(text: Seq<char>) -> Seq<char> {
    if text.len() > 0 && text[0] == '+' {
        text.skip(1)
    } else {
        text
    }
}

/// `text` writes a number: digits, at least one, behind at most one plus sign.
pub open spec fn is_number(text: Seq<char>) -> bool {
    &&& unsigned_part(text).len() > 0
    &&& forall|i: int| 0 <= i < unsigned_part(text).len() ==> is_digit(#[trigger] unsigned_part(text)[i])
}

/// The positive number that `text` writes, if it writes one that a `usize` holds.
pub open spec fn positive_int(text: Seq<char>) -> Option<usize> {
    let value = digits_value(unsigned_part(text));
    if is_number(text) && 0 < value && value <= usize::MAX {
        Some(value as usize)
    } else {
        None
    }
}

/// The number that digits write is at least the number that any leading
/// part of them writes.
proof fn lemma_digits_value_grows(digits: Seq<char>, k: int)
    requires
        0 <= k <= digits.len(),
    ensures
        digits_value(digits.take(k)) <= digits_value(digits),
    decreases digits.len(),
{
    if k == digits.len() {
        assert(digits.take(k) =~= digits);
    } else {
        lemma_digits_value_grows(digits.drop_last(), k);
        assert(digits.drop_last().take(k) =~= digits.take(k));
    }
}

/// Reads `val` as a positive number. Anything else is refused, and the
/// error is the text that was given.
pub fn parse_positive_int(val: &str) -> (parsed: Result<usize, String>)
    ensures
        match positive_int(val@) {
            Some(n) => parsed == Ok::<usize, String>(n),
            None => parsed is Err && parsed->Err_0@ == val@,
        },
{
    let ghost digits = unsigned_part(val@);
    if !val.is_ascii() {
        proof {
            let bad = choose|i: int| 0 <= i < val@.len() && !('\0' <= val@[i] && val@[i] <= '\u{7f}');
            if val@.len() > 0 && val@[0] == '+' {
                assert(!is_digit(digits[bad - 1]));
            }
        }
        return Err(val.to_owned());
    }
    let bytes = val.as_bytes();
    proof {
        is_ascii_spec_bytes(val);
    }
    let size: usize = bytes.len();
    let start: usize = if size > 0 && bytes[0] == 43 {
        1
    } else {
        0
    };
    if start == size {
        return Err(val.to_owned());
    }
    let mut value: usize = 0;
    let mut i: usize = start;
    while i < size
        invariant
            start <= i <= size,
            size == val@.len(),
            bytes@ == Seq::new(val@.len(), |j: int| val@[j] as u8),
            is_ascii(val),
            digits == unsigned_part(val@),
            digits == val@.skip(start as int),
            value == digits_value(digits.take(i - start)),
            forall|j: int| 0 <= j < i - start ==> is_digit(#[trigger] digits[j]),
        decreases size - i,
    {
        let b = bytes[i];
        if b < 48 || b > 57 {
            assert(!is_digit(digits[i - start]));
            return Err(val.to_owned());
        }
        proof {
            assert(digits.take(i - start + 1).drop_last() =~= digits.take(i - start));
            lemma_digits_value_grows(digits, i - start + 1);
        }
        let digit: usize = (b - 48) as usize;
        let next = match value.checked_mul(10) {
            Some(tens) => tens.checked_add(digit),
            None => None,
        };
        match next {
            Some(n) => {
                value = n;
            },
            None => {
                return Err(val.to_owned());
            },
        }
        i += 1;
    }
    assert(digits.take(i - start) =~= digits);
    if value == 0 {
        Err(val.to_owned())
    } else {
        Ok(value)
    }
}

/// A limit as it was given is in order: it was not given, or it writes a
/// positive number.
pub open spec fn is_count(text: Option<&str>) -> bool {
    match text {
        Some(t) => positive_int(t@) is Some,
        None => true,
    }
}

/// What the tool was asked to do: the files, and how much of each goes out.
/// There is at least one file, and every limit is positive.
#[derive(Debug)]
pub struct Config {
    files: Vec<String>,
    lines: usize,
    bytes: Option<usize>,
}

impl Config {
    #[verifier::type_invariant]
    spec fn valid(&self) -> bool {
        &&& self.files@.len() > 0
        &&& self.lines > 0
        &&& (self.bytes matches Some(n) ==> n > 0)
    }

    /// The files, in order, each as its text.
    pub closed spec fn file_names(&self) -> Seq<Seq<char>> {
        texts(self.files@)
    }

    /// The limit in lines.
    pub closed spec fn line_limit(&self) -> usize {
        self.lines
    }

    /// The limit in bytes, where one was given.
    pub closed spec fn byte_limit(&self) -> Option<usize> {
        self.bytes
    }

    /// The limit that holds: the one in bytes where it was given, else the
    /// one in lines.
    pub open spec fn limit_of(&self) -> Limit {
        match self.byte_limit() {
            Some(n) => Limit::Bytes(n),
            None => Limit::Lines(self.line_limit()),
        }
    }

    /// Makes a configuration of the files named and the limits as they were
    /// given, each as text or not at all.
    ///
    /// Two limits are refused. So is one that is no positive number, the one
    /// in lines first. Where no limit in lines is given it is ten; where no
    /// file is named the tool reads standard input.
    pub fn new(files: Vec<String>, lines: Option<&str>, bytes: Option<&str>) -> (made: Result<
        Config,
        ConfigError,
    >)
        ensures
            match made {
                Ok(config) => {
                    &&& !(lines is Some && bytes is Some)
                    &&& is_count(lines)
                    &&& is_count(bytes)
                    &&& config.file_names() == effective_files(files@)
                    &&& config.line_limit() == match lines {
                        Some(text) => positive_int(text@)->0,
                        None => DEFAULT_LINES,
                    }
                    &&& config.byte_limit() == match bytes {
                        Some(text) => positive_int(text@),
                        None => None,
                    }
                },
                Err(ConfigError::BothLimits) => lines is Some && bytes is Some,
                Err(ConfigError::IllegalLineCount(given)) => {
                    &&& !(lines is Some && bytes is Some)
                    &&& !is_count(lines)
                    &&& given@ == lines->0@
                },
                Err(ConfigError::IllegalByteCount(given)) => {
                    &&& !(lines is Some && bytes is Some)
                    &&& is_count(lines)
                    &&& !is_count(bytes)
                    &&& given@ == bytes->0@
                },
                Err(_) => false,
            },
    {
        if lines.is_some() && bytes.is_some() {
            return Err(ConfigError::BothLimits);
        }
        let line_limit: usize = match lines {
            Some(text) => match parse_positive_int(text) {
                Ok(n) => n,
                Err(given) => {
                    return Err(ConfigError::IllegalLineCount(given));
                },
            },
            None => DEFAULT_LINES,
        };
        let byte_limit: Option<usize> = match bytes {
            Some(text) => match parse_positive_int(text) {
                Ok(n) => Some(n),
                Err(given) => {
                    return Err(ConfigError::IllegalByteCount(given));
                },
            },
            None => None,
        };
        Ok(Config { files: files_or_stdin(files), lines: line_limit, bytes: byte_limit })
    }

    /// The files, in order.
    pub fn files(&self) -> (files: &Vec<String>)
        ensures
            files@.len() > 0,
            texts(files@) == self.file_names(),
    {
        proof {
            use_type_invariant(self);
        }
        &self.files
    }

    /// The limit in lines.
    pub fn lines(&self) -> (n: usize)
        ensures
            n == self.line_limit(),
            n > 0,
    {
        proof {
            use_type_invariant(self);
        }
        self.lines
    }

    /// The limit in bytes, where one was given.
    pub fn bytes(&self) -> (n: Option<usize>)
        ensures
            n == self.byte_limit(),
            n matches Some(k) ==> k > 0,
    {
        proof {
            use_type_invariant(self);
        }
        self.bytes
    }

    /// The limit that holds. It is positive.
    pub fn limit(&self) -> (limit: Limit)
        ensures
            limit == self.limit_of(),
            allowance(limit) > 0,
    {
        proof {
            use_type_invariant(self);
        }
        match self.bytes {
            Some(n) => Limit::Bytes(n),
            None => Limit::Lines(self.lines),
        }
    }
}

/// Writes the head of every file, as far as the configuration's limit goes.
///
/// `inputs` holds, for each file in order, the token that names it and
/// what became of it. The report is what the run writes on its two
/// channels; a file that failed has its diagnostic there and stops nothing.
pub fn run(config: &Config, inputs: &Vec<Input>) -> (report: Report)
    ensures
        report.out@ == batch_output(Engine::Head(config.limit_of()), inputs@, inputs@.len() as int),
        texts(report.err@) == batch_diagnostics(inputs@, inputs@.len() as int),
{
    run_batch(Engine::Head(config.limit()), inputs)
}

} // verus!
