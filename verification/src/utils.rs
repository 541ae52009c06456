//! The entry points of the library in one place, and two small helpers for
//! callers that keep their data in JSON files.

use vstd::prelude::*;

pub use crate::decoding::OpenAIDecodingArguments;
pub use crate::orchestrator::openai_completion;

verus! {

/// How a file is opened for writing.
#[derive(Clone, Copy, Debug, PartialEq, Eq, Structural)]
pub enum WriteMode {
    /// Write from the start of the file.
    Write,
    /// Add to the end of the file.
    Append,
}

/// The way of writing that a mode word names, if it names one.
pub open spec fn named_mode(mode: Seq<char>) -> Option<WriteMode> {
    if mode == "write"@ {
        Some(WriteMode::Write)
    } else if mode == "append"@ {
        Some(WriteMode::Append)
    } else {
        None
    }
}

/// Reads a mode word: `write` or `append`. Any other word names no mode.
pub fn write_mode(mode: &str) -> (parsed: Option<WriteMode>)
    ensures
        parsed == named_mode(mode@),
{
    let word = mode.to_owned();
    if word == "write".to_owned() {
        Some(WriteMode::Write)
    } else if word == "append".to_owned() {
        Some(WriteMode::Append)
    } else {
        None
    }
}

/// How many spaces one level of indentation has where the caller names no
/// width.
pub const DEFAULT_INDENT: usize = 4;

/// One level of indentation: `indent` spaces, or the default width.
pub open spec fn indent_unit(indent: Option<usize>) -> Seq<char> {
    Seq::new(
        match indent {
            Some(width) => width as nat,
            None => DEFAULT_INDENT as nat,
        },
        |i: int| ' ',
    )
}

/// The text of one level of indentation.
pub fn indentation(indent: Option<usize>) -> (unit: String)
    ensures
        unit@ == indent_unit(indent),
{
    let width: usize = match indent {
        Some(width) => width,
        None => DEFAULT_INDENT,
    };
    let mut unit = String::new();
    let mut i: usize = 0;
    while i < width
        invariant
            i <= width,
            unit@ == Seq::new(i as nat, |j: int| ' '),
        decreases width - i,
    {
        unit.push(' ');
        assert(unit@ =~= Seq::new((i + 1) as nat, |j: int| ' '));
        i = i + 1;
    }
    unit
}

} // verus!
