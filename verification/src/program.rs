//! The four transforms that a pipeline can name, and what each does to a
//! buffer.

use vstd::prelude::*;
use crate::base64_codec::{b64dec, b64enc, base64_decoded, base64_text};
use crate::error::PipeError;
use crate::hex_codec::{bin2hex, hex2bin, hex_decoded, hex_text};

verus! {

/// One stage of a pipeline.
#[derive(Clone, Copy, Debug, PartialEq, Eq, Structural)]
pub enum PipelineProgram {
    /// Bytes to padded base64 text.
    B64enc,
    /// Padded base64 text to bytes.
    B64dec,
    /// Hexadecimal text to bytes.
    Hex2bin,
    /// Bytes to lower-case hexadecimal text.
    Bin2hex,
}

/// What a stage makes of the buffer `b`.
pub open spec fn transform(op: PipelineProgram, b: Seq<u8>) -> Result<Seq<u8>, PipeError> {
    match op {
        PipelineProgram::B64enc => Ok(base64_text(b)),
        PipelineProgram::B64dec => base64_decoded(b),
        PipelineProgram::Hex2bin => hex_decoded(b),
        PipelineProgram::Bin2hex => Ok(hex_text(b)),
    }
}

/// The stage that a command-line word names, if it names one.
pub open spec fn program_of_token(t: Seq<char>) -> Option<PipelineProgram> {
    if t == "b64enc"@ {
        Some(PipelineProgram::B64enc)
    } else if t == "b64dec"@ {
        Some(PipelineProgram::B64dec)
    } else if t == "hex2bin"@ {
        Some(PipelineProgram::Hex2bin)
    } else if t == "bin2hex"@ {
        Some(PipelineProgram::Bin2hex)
    } else {
        None
    }
}

/// A buffer or an error, with the buffer taken as the sequence it holds.
pub open spec fn outcome(r: Result<Vec<u8>, PipeError>) -> Result<Seq<u8>, PipeError> {
    match r {
        Ok(v) => Ok(v@),
        Err(e) => Err(e),
    }
}

impl PipelineProgram {
    /// Whether this stage writes text, and so accepts every buffer.
    pub open spec fn is_encoder(self) -> bool {
        self == PipelineProgram::B64enc || self == PipelineProgram::Bin2hex
    }

    /// Reads one command-line word: `b64enc`, `b64dec`, `hex2bin` or
    /// `bin2hex`. Any other word names no stage.
    pub fn from_token(token: &str) -> (program: Option<PipelineProgram>)
        ensures
            program == program_of_token(token@),
    {
        let word = token.to_owned();
        if word == "b64enc".to_owned() {
            Some(PipelineProgram::B64enc)
        } else if word == "b64dec".to_owned() {
            Some(PipelineProgram::B64dec)
        } else if word == "hex2bin".to_owned() {
            Some(PipelineProgram::Hex2bin)
        } else if word == "bin2hex".to_owned() {
            Some(PipelineProgram::Bin2hex)
        } else {
            None
        }
    }

    /// Applies this stage to `buffer` and gives the new buffer, or the error
    /// with which a decoder refused it.
    pub fn handle(self, buffer: &Vec<u8>) -> (next: Result<Vec<u8>, PipeError>)
        ensures
            outcome(next) == transform(self, buffer@),
    {
        match self {
            PipelineProgram::B64enc => Ok(b64enc(buffer)),
            PipelineProgram::B64dec => b64dec(buffer),
            PipelineProgram::Hex2bin => hex2bin(buffer),
            PipelineProgram::Bin2hex => Ok(bin2hex(buffer)),
        }
    }
}

/// Reads the words of a command line as a pipeline, in their order. One
/// word that names no stage makes the whole an argument error.
pub fn parse_pipeline(tokens: &Vec<String>) -> (parsed: Result<Vec<PipelineProgram>, PipeError>)
    ensures
        match parsed {
            Ok(ops) => ops@.len() == tokens@.len() && forall|i: int|
                0 <= i < tokens@.len() ==> program_of_token(#[trigger] tokens@[i]@) == Some(
                    ops@[i],
                ),
            Err(e) => e == PipeError::Argument && exists|i: int|
                0 <= i < tokens@.len() && program_of_token(#[trigger] tokens@[i]@).is_none(),
        },
{
    let mut ops: Vec<PipelineProgram> = Vec::new();
    let mut k: usize = 0;
    while k < tokens.len()
        invariant
            k <= tokens@.len(),
            ops@.len() == k,
            forall|i: int|
                0 <= i < k ==> program_of_token(#[trigger] tokens@[i]@) == Some(ops@[i]),
        decreases tokens.len() - k,
    {
        match PipelineProgram::from_token(tokens[k].as_str()) {
            Some(op) => {
                ops.push(op);
            },
            None => {
                assert(program_of_token(tokens@[k as int]@).is_none());
                return Err(PipeError::Argument);
            },
        }
        k = k + 1;
    }
    Ok(ops)
}

} // verus!
