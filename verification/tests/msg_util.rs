use bytes::BytesMut;
use mmo_server::msg_util::{
    add_msg_length_header, get_next_16_bytes, get_next_32_bytes, get_next_i64,
    get_next_string_utf8, parse_nul_terminated_ascii, remove_length_header, to_string_ascii,
    to_string_ascii_2, AsciiFieldError, InvalidUtf8, ShortBuffer,
};

#[test]
fn length_header_is_prepended_big_endian() {
    let mut v = vec![1u8, 2, 3];
    add_msg_length_header(&mut v);
    assert_eq!(v, vec![0, 3, 1, 2, 3]);

    let mut long = vec![7u8; 300];
    add_msg_length_header(&mut long);
    assert_eq!(long[0], 1);
    assert_eq!(long[1], 44);
    assert_eq!(long.len(), 302);
}

#[test]
fn empty_payload_gets_zero_header() {
    let mut v: Vec<u8> = Vec::new();
    add_msg_length_header(&mut v);
    assert_eq!(v, vec![0, 0]);
}

#[test]
fn largest_payload_is_framed() {
    let mut v = vec![0u8; 65533];
    add_msg_length_header(&mut v);
    assert_eq!(v[0], 0xff);
    assert_eq!(v[1], 0xfd);
}

#[test]
fn length_header_is_removed() {
    let mut b = BytesMut::from(&[0u8, 5, b'a', b'b'][..]);
    assert_eq!(remove_length_header(&mut b), Ok(5));
    assert_eq!(&b[..], &[b'a', b'b'][..]);
}

#[test]
fn short_frame_is_refused_unchanged() {
    let mut b = BytesMut::from(&[0u8, 5][..]);
    assert_eq!(remove_length_header(&mut b), Err(ShortBuffer));
    assert_eq!(&b[..], &[0u8, 5][..]);
}

#[test]
fn framing_round_trip() {
    let payload = b"hello".to_vec();
    let mut v = payload.clone();
    add_msg_length_header(&mut v);
    let mut b = BytesMut::from(&v[..]);
    assert_eq!(remove_length_header(&mut b), Ok(payload.len() as u16));
    assert_eq!(&b[..], &payload[..]);
}

#[test]
fn string_field_is_read_up_to_nul() {
    let mut b = BytesMut::from(&b"pw\0user\0"[..]);
    assert_eq!(get_next_string_utf8(&mut b), Ok("pw".to_string()));
    assert_eq!(&b[..], &b"user\0"[..]);
    assert_eq!(get_next_string_utf8(&mut b), Ok("user".to_string()));
    assert!(b.is_empty());
}

#[test]
fn string_field_without_nul_takes_everything() {
    let mut b = BytesMut::from(&b"abc"[..]);
    assert_eq!(get_next_string_utf8(&mut b), Ok("abc".to_string()));
    assert!(b.is_empty());
}

#[test]
fn string_field_utf8_multibyte() {
    let text = "héllo";
    let mut raw = text.as_bytes().to_vec();
    raw.push(0);
    raw.extend_from_slice(b"rest");
    let mut b = BytesMut::from(&raw[..]);
    assert_eq!(get_next_string_utf8(&mut b), Ok(text.to_string()));
    assert_eq!(&b[..], &b"rest"[..]);
}

#[test]
fn invalid_utf8_field_is_refused_but_consumed() {
    let mut b = BytesMut::from(&[0xffu8, 0xfe, 0, 9][..]);
    assert_eq!(get_next_string_utf8(&mut b), Err(InvalidUtf8));
    assert_eq!(&b[..], &[9u8][..]);
}

#[test]
fn nul_terminated_ascii_is_parsed() {
    let input = b"abc\0rest";
    let (rest, s) = parse_nul_terminated_ascii(input).unwrap();
    assert_eq!(s, "abc");
    assert_eq!(rest, b"rest");
}

#[test]
fn nul_terminated_ascii_empty_field() {
    let (rest, s) = parse_nul_terminated_ascii(b"\0").unwrap();
    assert_eq!(s, "");
    assert!(rest.is_empty());
}

#[test]
fn nul_terminated_ascii_rejects_high_bytes() {
    assert_eq!(
        parse_nul_terminated_ascii(b"ab\x80c\0"),
        Err(AsciiFieldError::NotAscii { offset: 2 })
    );
}

#[test]
fn high_byte_after_nul_is_not_looked_at() {
    let (rest, s) = parse_nul_terminated_ascii(b"ok\0\xff").unwrap();
    assert_eq!(s, "ok");
    assert_eq!(rest, b"\xff");
}

#[test]
fn nul_terminated_ascii_without_nul_is_incomplete() {
    assert_eq!(parse_nul_terminated_ascii(b"abc"), Err(AsciiFieldError::Incomplete));
    assert_eq!(parse_nul_terminated_ascii(b""), Err(AsciiFieldError::Incomplete));
}

#[test]
fn printable_rendering_escapes_other_bytes() {
    assert_eq!(to_string_ascii_2(b"Hi\x00\x7f\xff\x0a"), "Hi\\x0\\x7f\\xff\\xa");
    assert_eq!(to_string_ascii_2(b"hello world ~"), "hello world ~");
    assert_eq!(to_string_ascii_2(b""), "");
    assert_eq!(to_string_ascii_2(&[0x1f, 0x20]), "\\x1f ");
}

#[test]
fn printable_rendering_of_buffer() {
    let b = BytesMut::from(&[b'A', 1, 0x10][..]);
    assert_eq!(to_string_ascii(&b), "A\\x1\\x10");
}

#[test]
fn next_32_bytes_are_taken() {
    let mut raw: Vec<u8> = (0u8..40).collect();
    let mut b = BytesMut::from(&raw[..]);
    let got = get_next_32_bytes(&mut b).unwrap();
    assert_eq!(&got[..], &raw[..32]);
    assert_eq!(&b[..], &raw[32..]);
    raw.truncate(31);
    let mut short = BytesMut::from(&raw[..]);
    assert_eq!(get_next_32_bytes(&mut short), Err(ShortBuffer));
    assert_eq!(short.len(), 31);
}

#[test]
fn next_16_bytes_are_taken() {
    let raw: Vec<u8> = (100u8..116).collect();
    let mut b = BytesMut::from(&raw[..]);
    let got = get_next_16_bytes(&mut b).unwrap();
    assert_eq!(&got[..], &raw[..]);
    assert!(b.is_empty());
    let mut short = BytesMut::from(&raw[..15]);
    assert_eq!(get_next_16_bytes(&mut short), Err(ShortBuffer));
}

#[test]
fn next_i64_is_big_endian_signed() {
    let mut b = BytesMut::from(&[0u8, 0, 0, 0, 0, 0, 1, 0, 9][..]);
    assert_eq!(get_next_i64(&mut b), Ok(256));
    assert_eq!(&b[..], &[9u8][..]);
    let mut neg = BytesMut::from(&[0xffu8; 8][..]);
    assert_eq!(get_next_i64(&mut neg), Ok(-1));
    let mut short = BytesMut::from(&[1u8; 7][..]);
    assert_eq!(get_next_i64(&mut short), Err(ShortBuffer));
    assert_eq!(short.len(), 7);
}
