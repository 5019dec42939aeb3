use bytepipe::base64_codec::{b64dec, b64enc};
use bytepipe::error::PipeError;
use bytepipe::hex_codec::{bin2hex, hex2bin};

fn bytes(s: &str) -> Vec<u8> {
    s.as_bytes().to_vec()
}

#[test]
fn base64_encodes_hello() {
    assert_eq!(b64enc(&bytes("hello")), bytes("aGVsbG8="));
}

#[test]
fn base64_encodes_each_group_length() {
    assert_eq!(b64enc(&bytes("")), bytes(""));
    assert_eq!(b64enc(&bytes("f")), bytes("Zg=="));
    assert_eq!(b64enc(&bytes("fo")), bytes("Zm8="));
    assert_eq!(b64enc(&bytes("foo")), bytes("Zm9v"));
    assert_eq!(b64enc(&bytes("foob")), bytes("Zm9vYg=="));
    assert_eq!(b64enc(&bytes("fooba")), bytes("Zm9vYmE="));
    assert_eq!(b64enc(&bytes("foobar")), bytes("Zm9vYmFy"));
}

#[test]
fn base64_encodes_the_ends_of_the_alphabet() {
    assert_eq!(b64enc(&vec![0u8, 0, 0]), bytes("AAAA"));
    assert_eq!(b64enc(&vec![255u8, 255, 255]), bytes("////"));
    assert_eq!(b64enc(&vec![251u8, 239, 190]), bytes("++++"));
    assert_eq!(b64enc(&vec![255u8]), bytes("/w=="));
    assert_eq!(b64enc(&vec![105u8, 183, 29]), bytes("abcd"));
    assert_eq!(b64enc(&vec![211u8, 93, 183]), bytes("0123"));
}

#[test]
fn base64_decodes_hello() {
    assert_eq!(b64dec(&bytes("aGVsbG8=")), Ok(bytes("hello")));
}

#[test]
fn base64_decodes_each_group_length() {
    assert_eq!(b64dec(&bytes("")), Ok(bytes("")));
    assert_eq!(b64dec(&bytes("Zg==")), Ok(bytes("f")));
    assert_eq!(b64dec(&bytes("Zm8=")), Ok(bytes("fo")));
    assert_eq!(b64dec(&bytes("Zm9v")), Ok(bytes("foo")));
    assert_eq!(b64dec(&bytes("Zm9vYmE=")), Ok(bytes("fooba")));
}

#[test]
fn base64_refuses_text_outside_the_alphabet() {
    assert_eq!(b64dec(&bytes("not valid base64!!")), Err(PipeError::Decode));
    assert_eq!(b64dec(&bytes("Zm9v\n")), Err(PipeError::Decode));
    assert_eq!(b64dec(&bytes("Zm-v")), Err(PipeError::Decode));
}

#[test]
fn base64_refuses_wrong_padding() {
    assert_eq!(b64dec(&bytes("Zg")), Err(PipeError::Decode));
    assert_eq!(b64dec(&bytes("Zg=")), Err(PipeError::Decode));
    assert_eq!(b64dec(&bytes("Zm8")), Err(PipeError::Decode));
    assert_eq!(b64dec(&bytes("Zg==Zg==")), Err(PipeError::Decode));
    assert_eq!(b64dec(&bytes("====")), Err(PipeError::Decode));
    assert_eq!(b64dec(&bytes("Z")), Err(PipeError::Decode));
}

#[test]
fn base64_refuses_text_that_no_bytes_encode_to() {
    assert_eq!(b64dec(&bytes("Zh==")), Err(PipeError::Decode));
    assert_eq!(b64dec(&bytes("Zm9=")), Err(PipeError::Decode));
}

#[test]
fn base64_round_trip_on_every_single_byte() {
    let mut b: u8 = 0;
    loop {
        let one = vec![b];
        assert_eq!(b64dec(&b64enc(&one)), Ok(one));
        let three = vec![b, b.wrapping_mul(7), b.wrapping_add(91)];
        assert_eq!(b64dec(&b64enc(&three)), Ok(three));
        if b == 255 {
            break;
        }
        b += 1;
    }
}

#[test]
fn hex_encodes_hello() {
    assert_eq!(bin2hex(&bytes("hello")), bytes("68656c6c6f"));
}

#[test]
fn hex_encodes_in_lower_case_high_digit_first() {
    assert_eq!(bin2hex(&vec![0u8, 1, 15, 16, 171, 255]), bytes("00010f10abff"));
    assert_eq!(bin2hex(&bytes("")), bytes(""));
}

#[test]
fn hex_decodes_hello() {
    assert_eq!(hex2bin(&bytes("68656c6c6f")), Ok(bytes("hello")));
}

#[test]
fn hex_decodes_either_case() {
    assert_eq!(hex2bin(&bytes("00010F10aBFf")), Ok(vec![0u8, 1, 15, 16, 171, 255]));
    assert_eq!(hex2bin(&bytes("")), Ok(bytes("")));
}

#[test]
fn hex_refuses_odd_length_and_other_characters() {
    assert_eq!(hex2bin(&bytes("xyz")), Err(PipeError::Decode));
    assert_eq!(hex2bin(&bytes("abc")), Err(PipeError::Decode));
    assert_eq!(hex2bin(&bytes("zz")), Err(PipeError::Decode));
    assert_eq!(hex2bin(&bytes("0g")), Err(PipeError::Decode));
    assert_eq!(hex2bin(&bytes("\u{e9}")), Err(PipeError::Decode));
}

#[test]
fn hex_refuses_bytes_that_are_not_text() {
    assert_eq!(hex2bin(&vec![0xffu8, 0xfe]), Err(PipeError::Encoding));
    assert_eq!(hex2bin(&vec![0x36u8, 0x38, 0xc3]), Err(PipeError::Encoding));
}

#[test]
fn hex_round_trip_on_every_byte() {
    let mut all: Vec<u8> = Vec::new();
    let mut b: u8 = 0;
    loop {
        all.push(b);
        if b == 255 {
            break;
        }
        b += 1;
    }
    assert_eq!(hex2bin(&bin2hex(&all)), Ok(all));
}

#[test]
fn encoders_accept_the_empty_buffer() {
    assert_eq!(b64enc(&Vec::new()), Vec::<u8>::new());
    assert_eq!(bin2hex(&Vec::new()), Vec::<u8>::new());
}
