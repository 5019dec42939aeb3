//! Hexadecimal text: two lower-case digits per byte when writing, either case
//! when reading.

use vstd::prelude::*;
use vstd::utf8::*;
use crate::error::PipeError;
use crate::text::utf8_text;

verus! {

/// The lower-case ASCII digit that stands for `n`, for `n` below sixteen.
pub open spec fn hex_digit(n: int) -> u8 {
    if n < 10 {
        (48 + n) as u8
    } else {
        (87 + n) as u8
    }
}

/// The hexadecimal text of `b`: for each byte its high digit, then its low one.
pub open spec fn hex_text(b: Seq<u8>) -> Seq<u8> {
    Seq::new(
        2 * b.len(),
        |i: int|
            if i % 2 == 0 {
                hex_digit(b[i / 2] as int / 16)
            } else {
                hex_digit(b[i / 2] as int % 16)
            },
    )
}

/// The value of an ASCII hexadecimal digit of either case, if `c` is one.
pub open spec fn hex_value(c: u8) -> Option<int> {
    if 48 <= c <= 57 {
        Some(c - 48)
    } else if 97 <= c <= 102 {
        Some(c - 87)
    } else if 65 <= c <= 70 {
        Some(c - 55)
    } else {
        None
    }
}

/// Whether `t` is hexadecimal text: an even number of hexadecimal digits.
pub open spec fn is_hex_text(t: Seq<u8>) -> bool {
    &&& t.len() % 2 == 0
    &&& forall|i: int| 0 <= i < t.len() ==> (#[trigger] hex_value(t[i])).is_some()
}

/// The bytes that hexadecimal text `t` stands for, one for each pair of digits.
pub open spec fn hex_bytes(t: Seq<u8>) -> Seq<u8> {
    Seq::new(
        t.len() / 2,
        |i: int| (hex_value(t[2 * i]).unwrap() * 16 + hex_value(t[2 * i + 1]).unwrap()) as u8,
    )
}

/// What decoding `t` gives: the bytes, or the reason why there are none.
pub open spec fn hex_decoded(t: Seq<u8>) -> Result<Seq<u8>, PipeError> {
    if !valid_utf8(t) {
        Err(PipeError::Encoding)
    } else if !is_hex_text(t) {
        Err(PipeError::Decode)
    } else {
        Ok(hex_bytes(t))
    }
}

/// `hex::FromHexError`, carried from the decoder to the place where it
/// becomes an error of this library; nothing is read from it.
#[verifier::external_type_specification]
#[verifier::external_body]
pub struct ExFromHexError(hex::FromHexError);

/// `hex::encode`, taken as bytes. The crate walks the input once and emits for
/// each byte the digit of its high half and then that of its low half, from the
/// table `0123456789abcdef`.
#[verifier::external_body]
fn hex_encode_call(buffer: &Vec<u8>) -> (text: Vec<u8>)
    ensures
        text@ == hex_text(buffer@),
{
    hex::encode(buffer).into_bytes()
}

/// `hex::decode`. The crate refuses input of odd length and any byte that is
/// not a hexadecimal digit of either case; otherwise each pair of digits gives
/// one byte, high digit first.
#[verifier::external_body]
fn hex_decode_call(buffer: &Vec<u8>) -> (bytes: Result<Vec<u8>, hex::FromHexError>)
    ensures
        bytes.is_ok() == is_hex_text(buffer@),
        bytes matches Ok(v) ==> v@ == hex_bytes(buffer@),
{
    hex::decode(buffer)
}

/// Writes `buffer` as lower-case hexadecimal text. Never fails.
pub fn bin2hex(buffer: &Vec<u8>) -> (text: Vec<u8>)
    ensures
        text@ == hex_text(buffer@),
{
    hex_encode_call(buffer)
}

/// Reads `buffer` as hexadecimal text. Bytes that are not UTF-8 are an
/// encoding error; text of odd length or with a character that is no
/// hexadecimal digit is a decode error.
pub fn hex2bin(buffer: &Vec<u8>) -> (bytes: Result<Vec<u8>, PipeError>)
    ensures
        match bytes {
            Ok(v) => hex_decoded(buffer@) == Ok::<Seq<u8>, PipeError>(v@),
            Err(e) => hex_decoded(buffer@) == Err::<Seq<u8>, PipeError>(e),
        },
{
    if utf8_text(buffer).is_none() {
        return Err(PipeError::Encoding);
    }
    match hex_decode_call(buffer) {
        Ok(v) => Ok(v),
        Err(_) => Err(PipeError::Decode),
    }
}

/// Bytes below 128 are UTF-8 text as they stand.
pub proof fn lemma_ascii_is_utf8(t: Seq<u8>)
    requires
        forall|i: int| 0 <= i < t.len() ==> t[i] < 128,
    ensures
        valid_utf8(t),
{
    let chars = Seq::new(t.len(), |i: int| t[i] as char);
    assert(is_ascii_chars(chars));
    is_ascii_chars_encode_utf8(chars);
    encode_utf8_valid_utf8(chars);
    assert(encode_utf8(chars) =~= t);
}

/// Decoding undoes encoding: the hexadecimal text of any bytes is accepted by
/// the decoder, which gives those bytes back.
pub proof fn lemma_hex_round_trip(b: Seq<u8>)
    ensures
        valid_utf8(hex_text(b)),
        is_hex_text(hex_text(b)),
        hex_bytes(hex_text(b)) == b,
        hex_decoded(hex_text(b)) == Ok::<Seq<u8>, PipeError>(b),
{
    let t = hex_text(b);
    assert forall|i: int| 0 <= i < t.len() implies t[i] < 128 && (#[trigger] hex_value(
        t[i],
    )).is_some() by {
        let n = if i % 2 == 0 {
            b[i / 2] as int / 16
        } else {
            b[i / 2] as int % 16
        };
        assert(0 <= n < 16);
        assert(t[i] == hex_digit(n));
    }
    lemma_ascii_is_utf8(t);
    assert forall|k: int| 0 <= k < b.len() implies #[trigger] hex_bytes(t)[k] == b[k] by {
        let hi = b[k] as int / 16;
        let lo = b[k] as int % 16;
        assert(t[2 * k] == hex_digit(hi));
        assert(t[2 * k + 1] == hex_digit(lo));
        assert(hex_value(hex_digit(hi)) == Some(hi));
        assert(hex_value(hex_digit(lo)) == Some(lo));
    }
    assert(hex_bytes(t) =~= b);
}

} // verus!
