//! The ways in which a run can fail.

use vstd::prelude::*;

verus! {

/// Why a run stopped without producing output.
#[derive(Clone, Copy, Debug, PartialEq, Eq, Structural)]
pub enum PipeError {
    /// The command line named both input sources, or none.
    Argument,
    /// The input file could not be opened or read.
    NotFound,
    /// Text handed to a decoder is not in that decoder's encoding.
    Decode,
    /// Bytes handed to the hexadecimal decoder are not UTF-8 text.
    Encoding,
    /// The output file could not be created or written.
    Io,
}

impl PipeError {
    /// The exit status of a run that ended with this error: 2 where the
    /// command line was at fault, 1 otherwise. Never 0, which is success.
    pub fn exit_code(self) -> (code: u8)
        ensures
            code == if self == PipeError::Argument {
                2u8
            } else {
                1u8
            },
    {
        match self {
            PipeError::Argument => 2,
            _ => 1,
        }
    }
}

} // verus!
