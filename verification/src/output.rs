//! Where the last buffer goes: into a file as it is, or onto the terminal in
//! a form that shows every byte.

use vstd::prelude::*;
use vstd::utf8::*;
use crate::text::utf8_text;

verus! {

/// The quoted form of a text: the text between double quotes, with control
/// characters and quotes escaped, as `{:?}` writes a string.
pub uninterp spec fn quoted_text(text: Seq<char>) -> Seq<char>;

/// The list form of a buffer: its bytes as decimal numbers between square
/// brackets, as `{:?}` writes a vector of bytes.
pub uninterp spec fn listed_bytes(bytes: Seq<u8>) -> Seq<char>;

/// The line that shows `b` on a terminal: quoted text where the bytes are
/// UTF-8, and the list of their values where they are not.
pub open spec fn printed(b: Seq<u8>) -> Seq<char> {
    if valid_utf8(b) {
        quoted_text(decode_utf8(b))
    } else {
        listed_bytes(b)
    }
}

/// What to do with the final buffer.
#[derive(Clone, Debug, PartialEq, Eq)]
pub enum Output {
    /// Create or truncate the file at `path` and write `bytes` to it.
    File { path: String, bytes: Vec<u8> },
    /// Print `line` to standard output, and a newline after it.
    Print { line: String },
}

/// `format!` with `{:?}` on a string: the `Debug` form of `str`.
#[verifier::external_body]
fn debug_string(text: &String) -> (line: String)
    ensures
        line@ == quoted_text(text@),
{
    format!("{:?}", text)
}

/// `format!` with `{:?}` on a vector of bytes: the `Debug` form of `Vec<u8>`.
#[verifier::external_body]
fn debug_bytes(buffer: &Vec<u8>) -> (line: String)
    ensures
        line@ == listed_bytes(buffer@),
{
    format!("{:?}", buffer)
}

/// The line that shows `buffer` on a terminal, without the newline.
pub fn render(buffer: &Vec<u8>) -> (line: String)
    ensures
        line@ == printed(buffer@),
{
    match utf8_text(buffer) {
        Some(text) => {
            proof {
                encode_utf8_decode_utf8(text@);
            }
            debug_string(&text)
        },
        None => debug_bytes(buffer),
    }
}

/// Decides what becomes of the final buffer. With an output path the bytes go
/// to that file untouched; without one the buffer is printed.
pub fn plan_output(buffer: Vec<u8>, out_file: Option<String>) -> (out: Output)
    ensures
        match out_file {
            Some(path) => out == (Output::File { path, bytes: buffer }),
            None => out matches Output::Print { line } && line@ == printed(buffer@),
        },
{
    match out_file {
        Some(path) => Output::File { path, bytes: buffer },
        None => Output::Print { line: render(&buffer) },
    }
}

} // verus!
