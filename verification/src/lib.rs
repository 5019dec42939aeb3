//! A small library that threads a byte buffer through an ordered chain of
//! reversible text codecs: base64 and hexadecimal, each in both directions.

pub mod base64_codec;
pub mod error;
pub mod hex_codec;
pub mod input;
pub mod output;
pub mod pipeline;
pub mod program;
mod text;
