//! Where the first buffer comes from: a file or a string given on the command
//! line, one of the two and never both.

use vstd::prelude::*;
use vstd::string::*;
use vstd::utf8::*;
use crate::error::PipeError;

verus! {

/// The two input options as the command line gave them.
#[derive(Clone, Debug, PartialEq, Eq)]
pub struct InputTarget {
    /// The path given with `-f`, if any.
    pub in_file: Option<String>,
    /// The string given with `-i`, if any.
    pub in_string: Option<String>,
}

/// The one source that a run reads.
#[derive(Clone, Debug, PartialEq, Eq)]
pub enum InputSource {
    /// Read the whole of the named file.
    FilePath(String),
    /// Take the string itself.
    LiteralString(String),
}

/// The source that the two options select, where exactly one of them is set.
pub open spec fn selected(target: InputTarget) -> Result<InputSource, PipeError> {
    match (target.in_file, target.in_string) {
        (Some(path), None) => Ok(InputSource::FilePath(path)),
        (None, Some(text)) => Ok(InputSource::LiteralString(text)),
        _ => Err(PipeError::Argument),
    }
}

/// Decides which source a run reads. With a file and no string it is the
/// file, with a string and no file the string. With both or with neither it is
/// an argument error, and nothing has been read by then.
pub fn get_input(target: &InputTarget) -> (source: Result<InputSource, PipeError>)
    ensures
        source == selected(*target),
{
    match (&target.in_file, &target.in_string) {
        (Some(path), None) => Ok(InputSource::FilePath(path.clone())),
        (None, Some(text)) => Ok(InputSource::LiteralString(text.clone())),
        _ => Err(PipeError::Argument),
    }
}

/// The buffer for a literal string: its UTF-8 encoding.
pub fn literal_bytes(text: &str) -> (buffer: Vec<u8>)
    ensures
        buffer@ == encode_utf8(text@),
{
    text.as_bytes_vec()
}

} // verus!
