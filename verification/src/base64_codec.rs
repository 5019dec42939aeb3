//! Base64 text in the standard alphabet, padded with `=` to whole groups of
//! four characters.

use vstd::prelude::*;
use crate::error::PipeError;

verus! {

/// The character of the standard alphabet that stands for the six-bit value
/// `v`: `A`-`Z`, `a`-`z`, `0`-`9`, `+`, `/`.
pub open spec fn base64_char(v: int) -> u8 {
    if v < 26 {
        (65 + v) as u8
    } else if v < 52 {
        (71 + v) as u8
    } else if v < 62 {
        (v - 4) as u8
    } else if v == 62 {
        43u8
    } else {
        47u8
    }
}

/// The four characters for a group of up to three bytes, of which `n` are
/// present: the bits of the bytes, six at a time from the top, and `=` where
/// no byte contributes.
pub open spec fn base64_group(b0: int, b1: int, b2: int, n: int) -> Seq<u8> {
    seq![
        base64_char(b0 / 4),
        base64_char((b0 % 4) * 16 + b1 / 16),
        if n >= 2 {
            base64_char((b1 % 16) * 4 + b2 / 64)
        } else {
            61u8
        },
        if n >= 3 {
            base64_char(b2 % 64)
        } else {
            61u8
        },
    ]
}

/// The padded base64 text of `b`: one group of four characters for every three
/// bytes, the last group padded where fewer than three bytes are left.
pub open spec fn base64_text(b: Seq<u8>) -> Seq<u8>
    decreases b.len(),
{
    if b.len() == 0 {
        Seq::<u8>::empty()
    } else if b.len() == 1 {
        base64_group(b[0] as int, 0, 0, 1)
    } else if b.len() == 2 {
        base64_group(b[0] as int, b[1] as int, 0, 2)
    } else {
        base64_group(b[0] as int, b[1] as int, b[2] as int, 3) + base64_text(b.skip(3))
    }
}

/// The six-bit value of a character of the standard alphabet, if `c` is one.
pub open spec fn base64_value(c: u8) -> Option<int> {
    if 65 <= c <= 90 {
        Some(c - 65)
    } else if 97 <= c <= 122 {
        Some(c - 71)
    } else if 48 <= c <= 57 {
        Some(c + 4)
    } else if c == 43 {
        Some(62)
    } else if c == 47 {
        Some(63)
    } else {
        None
    }
}

/// Four characters of the alphabet: a group that stands for three bytes.
pub open spec fn is_full_group(g: Seq<u8>) -> bool {
    &&& g.len() == 4
    &&& base64_value(g[0]).is_some()
    &&& base64_value(g[1]).is_some()
    &&& base64_value(g[2]).is_some()
    &&& base64_value(g[3]).is_some()
}

/// A group that stands for one or two bytes: two or three characters of the
/// alphabet, then `=` up to four, and no bit set in the last character that
/// belongs to no byte.
pub open spec fn is_padded_group(g: Seq<u8>) -> bool {
    &&& g.len() == 4
    &&& base64_value(g[0]).is_some()
    &&& base64_value(g[1]).is_some()
    &&& g[3] == 61
    &&& if g[2] == 61 {
        base64_value(g[1]).unwrap() % 16 == 0
    } else {
        base64_value(g[2]).is_some() && base64_value(g[2]).unwrap() % 4 == 0
    }
}

/// The shape of padded base64 text: whole groups of four characters, all of
/// them full but possibly the last, which may be padded.
pub open spec fn is_well_formed_base64(t: Seq<u8>) -> bool
    decreases t.len(),
{
    if t.len() == 0 {
        true
    } else if t.len() < 4 {
        false
    } else if t.len() == 4 {
        is_full_group(t) || is_padded_group(t)
    } else {
        is_full_group(t.take(4)) && is_well_formed_base64(t.skip(4))
    }
}

/// Whether `t` is the padded base64 text of some bytes.
pub open spec fn is_base64_text(t: Seq<u8>) -> bool {
    exists|b: Seq<u8>| #[trigger] base64_text(b) == t
}

/// The bytes of which `t` is the base64 text, where there are any.
pub open spec fn base64_bytes(t: Seq<u8>) -> Seq<u8> {
    choose|b: Seq<u8>| #[trigger] base64_text(b) == t
}

/// What decoding `t` gives: for well-formed text the bytes that encode to
/// it, for any other text a decode error.
pub open spec fn base64_decoded(t: Seq<u8>) -> Result<Seq<u8>, PipeError> {
    if is_well_formed_base64(t) {
        Ok(base64_bytes(t))
    } else {
        Err(PipeError::Decode)
    }
}

/// `base64::DecodeError`, carried from the decoder to the place where it
/// becomes an error of this library; nothing is read from it.
#[verifier::external_type_specification]
#[verifier::external_body]
pub struct ExDecodeError(base64::DecodeError);

/// `Engine::encode` of `base64::prelude::BASE64_STANDARD`, taken as bytes.
/// That engine writes the standard alphabet and pads the last group with `=`.
#[verifier::external_body]
fn base64_encode_call(buffer: &Vec<u8>) -> (text: Vec<u8>)
    ensures
        text@ == base64_text(buffer@),
{
    base64::Engine::encode(&base64::prelude::BASE64_STANDARD, buffer).into_bytes()
}

/// `Engine::decode` of `base64::prelude::BASE64_STANDARD`. That engine reads
/// the standard alphabet, takes `=` only at the end of the last group of
/// four, requires the padding to fill that group, and refuses set bits that
/// belong to no byte. What it accepts it turns into the bytes that encode to
/// it.
#[verifier::external_body]
fn base64_decode_call(buffer: &Vec<u8>) -> (bytes: Result<Vec<u8>, base64::DecodeError>)
    ensures
        bytes.is_ok() == is_well_formed_base64(buffer@),
        bytes matches Ok(v) ==> base64_text(v@) == buffer@,
{
    base64::Engine::decode(&base64::prelude::BASE64_STANDARD, buffer)
}

/// The characters of the alphabet are distinct, and none is `=`.
proof fn lemma_base64_char_distinct(v: int, w: int)
    requires
        0 <= v < 64,
        0 <= w < 64,
    ensures
        base64_char(v) != 61,
        base64_char(v) == base64_char(w) ==> v == w,
{
}

/// The text of a buffer that is not empty starts with the character for the
/// top six bits of the first byte.
pub proof fn lemma_base64_first(b: Seq<u8>)
    requires
        b.len() > 0,
    ensures
        base64_text(b).len() >= 4,
        base64_text(b)[0] == base64_char(b[0] as int / 4),
{
}

/// The text has four characters for every three bytes, rounded up.
pub proof fn lemma_base64_text_len(b: Seq<u8>)
    ensures
        base64_text(b).len() == 4 * ((b.len() + 2) / 3),
    decreases b.len(),
{
    if b.len() >= 3 {
        lemma_base64_text_len(b.skip(3));
    }
}

/// Equal groups come from equal bytes, as far as bytes are present.
proof fn lemma_group_determines(a0: int, a1: int, a2: int, b0: int, b1: int, b2: int, n: int)
    requires
        0 <= a0 < 256,
        0 <= a1 < 256,
        0 <= a2 < 256,
        0 <= b0 < 256,
        0 <= b1 < 256,
        0 <= b2 < 256,
        1 <= n <= 3,
        base64_group(a0, a1, a2, n) == base64_group(b0, b1, b2, n),
    ensures
        a0 == b0,
        n >= 2 ==> a1 == b1,
        n >= 3 ==> a2 == b2,
{
    let ga = base64_group(a0, a1, a2, n);
    let gb = base64_group(b0, b1, b2, n);
    assert(ga[0] == gb[0]);
    assert(ga[1] == gb[1]);
    assert(ga[2] == gb[2]);
    assert(ga[3] == gb[3]);
    lemma_base64_char_distinct(a0 / 4, b0 / 4);
    lemma_base64_char_distinct((a0 % 4) * 16 + a1 / 16, (b0 % 4) * 16 + b1 / 16);
    lemma_base64_char_distinct((a1 % 16) * 4 + a2 / 64, (b1 % 16) * 4 + b2 / 64);
    lemma_base64_char_distinct(a2 % 64, b2 % 64);
}

/// No two byte sequences have the same base64 text.
pub proof fn lemma_base64_text_injective(a: Seq<u8>, b: Seq<u8>)
    requires
        base64_text(a) == base64_text(b),
    ensures
        a == b,
    decreases a.len(),
{
    lemma_base64_text_len(a);
    lemma_base64_text_len(b);
    let ta = base64_text(a);
    let tb = base64_text(b);
    if a.len() == 0 {
        assert(b.len() == 0);
        assert(a =~= b);
    } else {
        assert(b.len() > 0);
        let na: int = if a.len() >= 3 { 3 } else { a.len() as int };
        let nb: int = if b.len() >= 3 { 3 } else { b.len() as int };
        let a0 = a[0] as int;
        let a1: int = if a.len() >= 2 { a[1] as int } else { 0 };
        let a2: int = if a.len() >= 3 { a[2] as int } else { 0 };
        let b0 = b[0] as int;
        let b1: int = if b.len() >= 2 { b[1] as int } else { 0 };
        let b2: int = if b.len() >= 3 { b[2] as int } else { 0 };
        let ga = base64_group(a0, a1, a2, na);
        let gb = base64_group(b0, b1, b2, nb);
        assert(ta.subrange(0, 4) =~= ga);
        assert(tb.subrange(0, 4) =~= gb);
        assert(ga == gb);
        assert(ga[2] == gb[2]);
        assert(ga[3] == gb[3]);
        lemma_base64_char_distinct((a1 % 16) * 4 + a2 / 64, (b1 % 16) * 4 + b2 / 64);
        lemma_base64_char_distinct(a2 % 64, b2 % 64);
        assert(na == nb);
        lemma_group_determines(a0, a1, a2, b0, b1, b2, na);
        if na == 3 {
            assert(ta.subrange(4, ta.len() as int) =~= base64_text(a.skip(3)));
            assert(tb.subrange(4, tb.len() as int) =~= base64_text(b.skip(3)));
            lemma_base64_text_injective(a.skip(3), b.skip(3));
            assert(a =~= seq![a[0], a[1], a[2]] + a.skip(3));
            assert(b =~= seq![b[0], b[1], b[2]] + b.skip(3));
        } else {
            assert(a.len() == b.len());
            assert(a =~= b);
        }
    }
}

/// A character of the alphabet is the one that stands for its value, and the
/// other way round.
proof fn lemma_base64_value_inverse(c: u8, v: int)
    ensures
        base64_value(c) matches Some(w) ==> 0 <= w < 64 && base64_char(w) == c,
        0 <= v < 64 ==> base64_value(base64_char(v)) == Some(v),
{
}

/// The text of any bytes has the shape of padded base64 text.
pub proof fn lemma_text_is_well_formed(b: Seq<u8>)
    ensures
        is_well_formed_base64(base64_text(b)),
    decreases b.len(),
{
    let t = base64_text(b);
    lemma_base64_text_len(b);
    if b.len() == 0 {
    } else {
        let b0 = b[0] as int;
        let b1: int = if b.len() >= 2 { b[1] as int } else { 0 };
        let b2: int = if b.len() >= 3 { b[2] as int } else { 0 };
        lemma_base64_value_inverse(0, b0 / 4);
        lemma_base64_value_inverse(0, (b0 % 4) * 16 + b1 / 16);
        lemma_base64_value_inverse(0, (b1 % 16) * 4 + b2 / 64);
        lemma_base64_value_inverse(0, b2 % 64);
        lemma_base64_char_distinct((b1 % 16) * 4 + b2 / 64, 0);
        if b.len() == 1 {
            assert(is_padded_group(t));
        } else if b.len() == 2 {
            assert(is_padded_group(t));
        } else {
            let g = base64_group(b0, b1, b2, 3);
            assert(is_full_group(g));
            lemma_text_is_well_formed(b.skip(3));
            lemma_base64_text_len(b.skip(3));
            assert(t.take(4) =~= g);
            assert(t.skip(4) =~= base64_text(b.skip(3)));
            if b.len() == 3 {
                assert(t =~= g);
            }
        }
    }
}

/// Every text of that shape is the text of some bytes.
pub proof fn lemma_well_formed_is_text(t: Seq<u8>)
    requires
        is_well_formed_base64(t),
    ensures
        is_base64_text(t),
    decreases t.len(),
{
    if t.len() == 0 {
        assert(base64_text(Seq::<u8>::empty()) =~= t);
    } else {
        let v0 = base64_value(t[0]).unwrap();
        let v1 = base64_value(t[1]).unwrap();
        lemma_base64_value_inverse(t[0], 0);
        lemma_base64_value_inverse(t[1], 0);
        lemma_base64_value_inverse(t[2], 0);
        lemma_base64_value_inverse(t[3], 0);
        let b0 = (v0 * 4 + v1 / 16) as u8;
        if t.len() == 4 && is_padded_group(t) {
            if t[2] == 61 {
                let b = seq![b0];
                assert(base64_text(b) =~= t);
            } else {
                let v2 = base64_value(t[2]).unwrap();
                let b1 = ((v1 % 16) * 16 + v2 / 4) as u8;
                let b = seq![b0, b1];
                assert(base64_text(b) =~= t);
            }
        } else {
            let g = t.take(4);
            assert(is_full_group(g));
            let v2 = base64_value(t[2]).unwrap();
            let v3 = base64_value(t[3]).unwrap();
            let b1 = ((v1 % 16) * 16 + v2 / 4) as u8;
            let b2 = ((v2 % 4) * 64 + v3) as u8;
            let rest = t.skip(4);
            if t.len() > 4 {
                lemma_well_formed_is_text(rest);
            } else {
                assert(base64_text(Seq::<u8>::empty()) =~= rest);
            }
            let r = base64_bytes(rest);
            assert(base64_text(r) == rest);
            let b = seq![b0, b1, b2] + r;
            assert(b.skip(3) =~= r);
            assert(base64_group(b0 as int, b1 as int, b2 as int, 3) =~= g);
            assert(base64_text(b) =~= g + rest);
            assert(g + rest =~= t);
        }
    }
}

/// The decoder's rule in full: some bytes encode to `t` exactly when `t` has
/// the shape of padded base64 text. So a text is refused for a character
/// outside the alphabet, for padding in the wrong place or of the wrong
/// amount, for a length that is no multiple of four, or for stray bits under
/// the padding, and for nothing else.
pub proof fn lemma_base64_text_shape(t: Seq<u8>)
    ensures
        is_base64_text(t) <==> is_well_formed_base64(t),
{
    if is_base64_text(t) {
        lemma_text_is_well_formed(base64_bytes(t));
    }
    if is_well_formed_base64(t) {
        lemma_well_formed_is_text(t);
    }
}

/// Writes `buffer` as padded base64 text in the standard alphabet. Never
/// fails.
pub fn b64enc(buffer: &Vec<u8>) -> (text: Vec<u8>)
    ensures
        text@ == base64_text(buffer@),
{
    base64_encode_call(buffer)
}

/// Reads `buffer` as padded base64 text in the standard alphabet. Text that
/// no bytes encode to (a character outside the alphabet, wrong padding, a
/// length that padding cannot explain) is a decode error.
pub fn b64dec(buffer: &Vec<u8>) -> (bytes: Result<Vec<u8>, PipeError>)
    ensures
        match bytes {
            Ok(v) => base64_decoded(buffer@) == Ok::<Seq<u8>, PipeError>(v@),
            Err(e) => base64_decoded(buffer@) == Err::<Seq<u8>, PipeError>(e),
        },
        bytes matches Ok(v) ==> base64_text(v@) == buffer@,
{
    proof {
        lemma_base64_text_shape(buffer@);
    }
    match base64_decode_call(buffer) {
        Ok(v) => {
            proof {
                lemma_base64_text_injective(v@, base64_bytes(buffer@));
            }
            Ok(v)
        },
        Err(_) => Err(PipeError::Decode),
    }
}

/// Decoding undoes encoding: the base64 text of any bytes is accepted by the
/// decoder, which gives those bytes back.
pub proof fn lemma_base64_round_trip(b: Seq<u8>)
    ensures
        is_well_formed_base64(base64_text(b)),
        base64_bytes(base64_text(b)) == b,
        base64_decoded(base64_text(b)) == Ok::<Seq<u8>, PipeError>(b),
{
    lemma_text_is_well_formed(b);
    lemma_base64_text_injective(base64_bytes(base64_text(b)), b);
}

} // verus!
