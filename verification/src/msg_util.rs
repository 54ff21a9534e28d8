//! Framing and field readers of the wire protocol.
use bytes::BytesMut;
use std::str::Utf8Error;
use vstd::prelude::*;
use vstd::utf8::{decode_utf8, encode_utf8, valid_utf8, is_ascii_chars, encode_utf8_decode_utf8,
    encode_utf8_valid_utf8, is_ascii_chars_encode_utf8};
use vstd::string::StringSliceAdditionalSpecFns;
use crate::buffer::{buf_view, be16, signed64, be64, buf_len, buf_get_u8, buf_get_u16, buf_get_i64,
    buf_as_slice};

verus! {

/// The largest payload that a two-byte length header may announce.
pub const MAX_PAYLOAD: usize = 65533;

/// The buffer held fewer bytes than the field needs.
#[derive(Debug, PartialEq, Eq, Structural, Clone, Copy)]
pub struct ShortBuffer;

/// A string field was not valid UTF-8.
#[derive(Debug, PartialEq, Eq, Structural, Clone, Copy)]
pub struct InvalidUtf8;

/// Why a NUL-terminated ASCII field could not be read.
#[derive(Debug, PartialEq, Eq, Structural, Clone, Copy)]
pub enum AsciiFieldError {
    /// The byte at this offset has its high bit set.
    NotAscii { offset: usize },
    /// The input ends before a NUL byte.
    Incomplete,
}

#[verifier::external_type_specification]
#[verifier::external_body]
pub struct ExUtf8Error(Utf8Error);

/// `std::str::from_utf8`: succeeds exactly on valid UTF-8, and the text it gives
/// back is encoded by exactly the bytes it was given.
#[verifier::external_body]
fn str_from_utf8(v: &[u8]) -> (r: Result<&str, Utf8Error>)
    ensures
        r is Ok <==> valid_utf8(v@),
        r matches Ok(s) ==> s.spec_bytes() == v@,
{
    std::str::from_utf8(v)
}

/// The length header that announces a payload of `n` bytes: `n` as a big-endian u16.
pub open spec fn length_header(n: nat) -> Seq<u8> {
    seq![(n / 0x100) as u8, (n % 0x100) as u8]
}

/// A payload behind its length header.
pub open spec fn framed(payload: Seq<u8>) -> Seq<u8> {
    length_header(payload.len()) + payload
}

/// Position of the first NUL byte of `s`, or `s.len()` when there is none.
pub open spec fn nul_index(s: Seq<u8>) -> nat
    decreases s.len(),
{
    if s.len() == 0 {
        0
    } else if s[0] == 0 {
        0
    } else {
        1 + nul_index(s.skip(1))
    }
}

/// Position of the first byte of `s` with its high bit set, or `s.len()` when there is none.
pub open spec fn high_index(s: Seq<u8>) -> nat
    decreases s.len(),
{
    if s.len() == 0 {
        0
    } else if s[0] >= 0x80 {
        0
    } else {
        1 + high_index(s.skip(1))
    }
}

/// The bytes of a NUL-terminated field: those before the first NUL (all of `s` without one).
pub open spec fn nul_field(s: Seq<u8>) -> Seq<u8> {
    s.take(nul_index(s) as int)
}

/// What is left once a NUL-terminated field and its terminator are taken off.
pub open spec fn after_nul_field(s: Seq<u8>) -> Seq<u8> {
    if nul_index(s) < s.len() {
        s.skip(nul_index(s) as int + 1)
    } else {
        Seq::empty()
    }
}

/// Bytes read as the ASCII characters with the same codes.
pub open spec fn ascii_chars(s: Seq<u8>) -> Seq<char> {
    s.map_values(|b: u8| b as char)
}

/// True when no byte of `s` has its high bit set.
pub open spec fn all_ascii(s: Seq<u8>) -> bool {
    forall|i: int| 0 <= i < s.len() ==> #[trigger] s[i] < 0x80
}

/// Lower-case hexadecimal digit of `d` (below 16).
pub open spec fn hex_digit(d: int) -> u8 {
    if d < 10 {
        (0x30 + d) as u8
    } else {
        (0x61 + d - 10) as u8
    }
}

/// How one byte is shown: a printable ASCII byte as itself, any other as `\x`
/// followed by its value in lower-case hexadecimal without leading zeros.
pub open spec fn escape_byte(b: u8) -> Seq<u8> {
    if 0x20 <= b <= 0x7e {
        seq![b]
    } else if b < 16 {
        seq![0x5cu8, 0x78u8, hex_digit(b as int)]
    } else {
        seq![0x5cu8, 0x78u8, hex_digit((b / 16) as int), hex_digit((b % 16) as int)]
    }
}

/// The shown form of all bytes of `s`, one after the other.
pub open spec fn escape_bytes(s: Seq<u8>) -> Seq<u8>
    decreases s.len(),
{
    if s.len() == 0 {
        Seq::empty()
    } else {
        escape_bytes(s.drop_last()) + escape_byte(s.last())
    }
}

/// The printable text that stands for the bytes of `s`.
pub open spec fn ascii_repr(s: Seq<u8>) -> Seq<char> {
    ascii_chars(escape_bytes(s))
}

/// `nul_index` points at the first NUL, and nothing before it is NUL.
pub proof fn lemma_nul_index(s: Seq<u8>)
    ensures
        nul_index(s) <= s.len(),
        forall|i: int| 0 <= i < nul_index(s) ==> s[i] != 0,
        nul_index(s) < s.len() ==> s[nul_index(s) as int] == 0,
    decreases s.len(),
{
    if s.len() > 0 && s[0] != 0 {
        lemma_nul_index(s.skip(1));
        assert forall|i: int| 0 <= i < nul_index(s) implies s[i] != 0 by {
            if i > 0 {
                assert(s[i] == s.skip(1)[i - 1]);
            }
        }
    }
}

/// The first NUL of `s` is the only position with the properties of `nul_index`.
pub proof fn lemma_nul_index_unique(s: Seq<u8>, k: int)
    requires
        0 <= k <= s.len(),
        forall|i: int| 0 <= i < k ==> s[i] != 0,
        k < s.len() ==> s[k] == 0,
    ensures
        k == nul_index(s),
{
    lemma_nul_index(s);
}

/// `high_index` points at the first byte with its high bit set.
pub proof fn lemma_high_index(s: Seq<u8>)
    ensures
        high_index(s) <= s.len(),
        forall|i: int| 0 <= i < high_index(s) ==> s[i] < 0x80,
        high_index(s) < s.len() ==> s[high_index(s) as int] >= 0x80,
    decreases s.len(),
{
    if s.len() > 0 && s[0] < 0x80 {
        lemma_high_index(s.skip(1));
        assert forall|i: int| 0 <= i < high_index(s) implies s[i] < 0x80 by {
            if i > 0 {
                assert(s[i] == s.skip(1)[i - 1]);
            }
        }
    }
}

/// ASCII bytes are valid UTF-8, and the only text they encode is the same codes as characters.
pub proof fn lemma_ascii_utf8(v: Seq<u8>)
    requires
        all_ascii(v),
    ensures
        valid_utf8(v),
        decode_utf8(v) == ascii_chars(v),
        forall|c: Seq<char>| #[trigger] encode_utf8(c) == v ==> c == ascii_chars(v),
{
    let m = ascii_chars(v);
    assert(is_ascii_chars(m)) by {
        assert forall|i: int| 0 <= i < m.len() implies '\0' <= #[trigger] m[i] <= '\u{7f}' by {
            assert(v[i] < 0x80);
        }
    }
    is_ascii_chars_encode_utf8(m);
    assert(encode_utf8(m) =~= v) by {
        assert forall|i: int| 0 <= i < v.len() implies encode_utf8(m)[i] == v[i] by {
            assert(m[i] as u8 == encode_utf8(m)[i]);
            assert(v[i] < 0x80);
        }
    }
    encode_utf8_valid_utf8(m);
    encode_utf8_decode_utf8(m);
    assert forall|c: Seq<char>| #[trigger] encode_utf8(c) == v implies c == m by {
        encode_utf8_decode_utf8(c);
    }
}

/// Puts the two-byte big-endian length header in front of a payload of at most
/// `MAX_PAYLOAD` bytes.
pub fn add_msg_length_header(vec: &mut Vec<u8>)
    requires
        old(vec).len() <= MAX_PAYLOAD,
    ensures
        final(vec)@ == framed(old(vec)@),
{
    let n: usize = vec.len();
    let high: u8 = (n / 0x100) as u8;
    let low: u8 = (n % 0x100) as u8;
    vec.insert(0, low);
    vec.insert(0, high);
    assert(vec@ =~= framed(old(vec)@));
}

/// Takes the two-byte big-endian length header off the front of a frame.
/// A buffer of fewer than three bytes is refused and left as it was.
pub fn remove_length_header(read_buffer: &mut BytesMut) -> (r: Result<u16, ShortBuffer>)
    ensures
        buf_view(*old(read_buffer)).len() < 3 ==> r == Err::<u16, ShortBuffer>(ShortBuffer)
            && buf_view(*final(read_buffer)) == buf_view(*old(read_buffer)),
        buf_view(*old(read_buffer)).len() >= 3 ==> r == Ok::<u16, ShortBuffer>(
            be16(buf_view(*old(read_buffer))) as u16,
        ) && buf_view(*final(read_buffer)) == buf_view(*old(read_buffer)).skip(2),
{
    if buf_len(read_buffer) < 3 {
        return Err(ShortBuffer);
    }
    let length = buf_get_u16(read_buffer);
    Ok(length)
}

/// Takes bytes off the front up to and including the first NUL (all of them
/// without one) and gives back those before the NUL.
pub(crate) fn take_nul_field(read_buffer: &mut BytesMut) -> (field: Vec<u8>)
    ensures
        field@ == nul_field(buf_view(*old(read_buffer))),
        buf_view(*final(read_buffer)) == after_nul_field(buf_view(*old(read_buffer))),
{
    let ghost s0 = buf_view(*read_buffer);
    let n: usize = buf_len(read_buffer);
    let mut field: Vec<u8> = Vec::new();
    let mut i: usize = 0;
    proof {
        lemma_nul_index(s0);
    }
    loop
        invariant_except_break
            i <= n,
            buf_view(*read_buffer) == s0.skip(i as int),
            field@ == s0.take(i as int),
            forall|j: int| 0 <= j < i ==> s0[j] != 0,
        invariant
            n == s0.len(),
            nul_index(s0) <= s0.len(),
            forall|j: int| 0 <= j < nul_index(s0) ==> s0[j] != 0,
            nul_index(s0) < s0.len() ==> s0[nul_index(s0) as int] == 0,
        ensures
            field@ == nul_field(s0),
            buf_view(*read_buffer) == after_nul_field(s0),
        decreases n - i,
    {
        if i >= n {
            proof {
                lemma_nul_index_unique(s0, i as int);
                assert(s0.skip(i as int) =~= Seq::<u8>::empty());
            }
            break;
        }
        let b = buf_get_u8(read_buffer);
        proof {
            assert(b == s0[i as int]);
            assert(s0.skip(i as int).skip(1) =~= s0.skip(i + 1));
        }
        if b == 0 {
            proof {
                lemma_nul_index_unique(s0, i as int);
            }
            break;
        }
        field.push(b);
        i = i + 1;
        proof {
            assert(field@ =~= s0.take(i as int));
        }
    }
    field
}

/// Reads a NUL-terminated UTF-8 string off the front of the buffer. The bytes up to
/// and including the NUL (all of them without one) are taken off, whatever the outcome.
pub fn get_next_string_utf8(read_buffer: &mut BytesMut) -> (r: Result<String, InvalidUtf8>)
    ensures
        buf_view(*final(read_buffer)) == after_nul_field(buf_view(*old(read_buffer))),
        r is Ok <==> valid_utf8(nul_field(buf_view(*old(read_buffer)))),
        r matches Ok(s) ==> s@ == decode_utf8(nul_field(buf_view(*old(read_buffer)))),
{
    let field = take_nul_field(read_buffer);
    match str_from_utf8(field.as_slice()) {
        Ok(text) => {
            proof {
                encode_utf8_decode_utf8(text@);
            }
            Ok(text.to_owned())
        },
        Err(_) => Err(InvalidUtf8),
    }
}

/// Turns bytes below 0x80 into the text of the same character codes.
fn ascii_to_string(v: &[u8]) -> (s: String)
    requires
        all_ascii(v@),
    ensures
        s@ == ascii_chars(v@),
{
    proof {
        lemma_ascii_utf8(v@);
    }
    match str_from_utf8(v) {
        Ok(text) => text.to_owned(),
        Err(_) => {
            assert(false);
            String::new()
        },
    }
}

/// Reads a NUL-terminated ASCII string from the front of `input`, and gives back the
/// input after the NUL together with the string. A byte with its high bit set before
/// the NUL is refused at its offset; input without a NUL is incomplete.
pub fn parse_nul_terminated_ascii<'a>(input: &'a [u8]) -> (r: Result<(&'a [u8], &'a str), AsciiFieldError>)
    ensures
        high_index(input@) < nul_index(input@) ==> r == Err::<(&'a [u8], &'a str), AsciiFieldError>(
            AsciiFieldError::NotAscii { offset: high_index(input@) as usize },
        ),
        high_index(input@) >= nul_index(input@) && nul_index(input@) == input@.len() ==> r == Err::<
            (&'a [u8], &'a str),
            AsciiFieldError,
        >(AsciiFieldError::Incomplete),
        high_index(input@) >= nul_index(input@) && nul_index(input@) < input@.len() ==> r is Ok,
        r matches Ok((rest, text)) ==> rest@ == input@.skip(nul_index(input@) as int + 1) && text@
            == ascii_chars(nul_field(input@)),
{
    let ghost s = input@;
    proof {
        lemma_nul_index(s);
        lemma_high_index(s);
    }
    let n = input.len();
    let mut i: usize = 0;
    while i < n
        invariant
            n == s.len(),
            input@ == s,
            i <= n,
            forall|j: int| 0 <= j < i ==> s[j] != 0 && s[j] < 0x80,
            nul_index(s) <= s.len(),
            forall|j: int| 0 <= j < nul_index(s) ==> s[j] != 0,
            nul_index(s) < s.len() ==> s[nul_index(s) as int] == 0,
            high_index(s) <= s.len(),
            forall|j: int| 0 <= j < high_index(s) ==> s[j] < 0x80,
            high_index(s) < s.len() ==> s[high_index(s) as int] >= 0x80,
        decreases n - i,
    {
        if input[i] >= 0x80 {
            assert(high_index(s) == i) by {
                if high_index(s) < i {
                    assert(s[high_index(s) as int] < 0x80);
                }
            }
            assert(i < nul_index(s)) by {
                if nul_index(s) <= i {
                    if nul_index(s) < i {
                        assert(s[nul_index(s) as int] != 0);
                    }
                }
            }
            return Err(AsciiFieldError::NotAscii { offset: i });
        }
        if input[i] == 0 {
            proof {
                lemma_nul_index_unique(s, i as int);
                assert(high_index(s) >= i) by {
                    if high_index(s) < i {
                        assert(s[high_index(s) as int] < 0x80);
                    }
                }
            }
            let rest = &input[i + 1..n];
            let field = &input[0..i];
            proof {
                assert(field@ =~= nul_field(s));
                assert(all_ascii(field@));
                lemma_ascii_utf8(field@);
            }
            match str_from_utf8(field) {
                Ok(text) => {
                    return Ok((rest, text));
                },
                Err(_) => {
                    assert(false);
                    return Err(AsciiFieldError::Incomplete);
                },
            }
        }
        i = i + 1;
    }
    proof {
        lemma_nul_index_unique(s, n as int);
        assert(high_index(s) >= n) by {
            if high_index(s) < n {
                assert(s[high_index(s) as int] < 0x80);
            }
        }
    }
    Err(AsciiFieldError::Incomplete)
}

/// Lower-case hexadecimal digit of a value below 16.
fn hex_digit_of(d: u8) -> (c: u8)
    requires
        d < 16,
    ensures
        c == hex_digit(d as int),
        c < 0x80,
{
    if d < 10 {
        0x30 + d
    } else {
        0x61 + d - 10
    }
}

/// A printable rendering of a buffer: printable ASCII bytes as themselves, every other
/// byte as `\x` and its value in lower-case hexadecimal.
pub fn to_string_ascii_2(read_buffer: &[u8]) -> (r: String)
    ensures
        r@ == ascii_repr(read_buffer@),
{
    let ghost s = read_buffer@;
    let n = read_buffer.len();
    let mut out: Vec<u8> = Vec::new();
    let mut i: usize = 0;
    while i < n
        invariant
            n == s.len(),
            read_buffer@ == s,
            i <= n,
            out@ == escape_bytes(s.take(i as int)),
            all_ascii(out@),
        decreases n - i,
    {
        let b = read_buffer[i];
        let ghost prev = out@;
        if 0x20 <= b && b <= 0x7e {
            out.push(b);
        } else {
            out.push(0x5c);
            out.push(0x78);
            if b < 16 {
                out.push(hex_digit_of(b));
            } else {
                out.push(hex_digit_of(b / 16));
                out.push(hex_digit_of(b % 16));
            }
        }
        proof {
            assert(s.take(i + 1).drop_last() =~= s.take(i as int));
            assert(out@ =~= prev + escape_byte(b));
        }
        i = i + 1;
    }
    proof {
        assert(s.take(n as int) =~= s);
    }
    ascii_to_string(out.as_slice())
}

/// A printable rendering of the bytes a buffer holds, as `to_string_ascii_2` gives it.
pub fn to_string_ascii(read_buffer: &BytesMut) -> (r: String)
    ensures
        r@ == ascii_repr(buf_view(*read_buffer)),
{
    to_string_ascii_2(buf_as_slice(read_buffer))
}

/// Takes the next `N` bytes off the front of the buffer; a shorter buffer is refused and
/// left as it was.
fn get_next_bytes<const N: usize>(read_buffer: &mut BytesMut) -> (r: Result<[u8; N], ShortBuffer>)
    ensures
        buf_view(*old(read_buffer)).len() < N ==> r == Err::<[u8; N], ShortBuffer>(ShortBuffer)
            && buf_view(*final(read_buffer)) == buf_view(*old(read_buffer)),
        buf_view(*old(read_buffer)).len() >= N ==> r is Ok && buf_view(*final(read_buffer))
            == buf_view(*old(read_buffer)).skip(N as int),
        r matches Ok(a) ==> a@ == buf_view(*old(read_buffer)).take(N as int),
{
    if buf_len(read_buffer) < N {
        return Err(ShortBuffer);
    }
    let ghost s0 = buf_view(*read_buffer);
    let mut bytes: [u8; N] = [0u8; N];
    let mut i: usize = 0;
    while i < N
        invariant
            s0.len() >= N,
            i <= N,
            buf_view(*read_buffer) == s0.skip(i as int),
            forall|j: int| 0 <= j < i ==> bytes@[j] == s0[j],
            bytes@.len() == N,
        decreases N - i,
    {
        let b = buf_get_u8(read_buffer);
        bytes[i] = b;
        proof {
            assert(s0.skip(i as int).skip(1) =~= s0.skip(i + 1));
        }
        i = i + 1;
    }
    assert(bytes@ =~= s0.take(N as int));
    Ok(bytes)
}

/// Takes the next 32 bytes off the front of the buffer; a shorter buffer is refused and
/// left as it was.
pub fn get_next_32_bytes(read_buffer: &mut BytesMut) -> (r: Result<[u8; 32], ShortBuffer>)
    ensures
        buf_view(*old(read_buffer)).len() < 32 ==> r == Err::<[u8; 32], ShortBuffer>(ShortBuffer)
            && buf_view(*final(read_buffer)) == buf_view(*old(read_buffer)),
        buf_view(*old(read_buffer)).len() >= 32 ==> r is Ok && buf_view(*final(read_buffer))
            == buf_view(*old(read_buffer)).skip(32),
        r matches Ok(a) ==> a@ == buf_view(*old(read_buffer)).take(32),
{
    get_next_bytes::<32>(read_buffer)
}

/// Takes the next 16 bytes off the front of the buffer; a shorter buffer is refused and
/// left as it was.
pub fn get_next_16_bytes(read_buffer: &mut BytesMut) -> (r: Result<[u8; 16], ShortBuffer>)
    ensures
        buf_view(*old(read_buffer)).len() < 16 ==> r == Err::<[u8; 16], ShortBuffer>(ShortBuffer)
            && buf_view(*final(read_buffer)) == buf_view(*old(read_buffer)),
        buf_view(*old(read_buffer)).len() >= 16 ==> r is Ok && buf_view(*final(read_buffer))
            == buf_view(*old(read_buffer)).skip(16),
        r matches Ok(a) ==> a@ == buf_view(*old(read_buffer)).take(16),
{
    get_next_bytes::<16>(read_buffer)
}

/// Takes a big-endian `i64` off the front of the buffer; a buffer of fewer than eight
/// bytes is refused and left as it was.
pub fn get_next_i64(buf: &mut BytesMut) -> (r: Result<i64, ShortBuffer>)
    ensures
        buf_view(*old(buf)).len() < 8 ==> r == Err::<i64, ShortBuffer>(ShortBuffer) && buf_view(
            *final(buf),
        ) == buf_view(*old(buf)),
        buf_view(*old(buf)).len() >= 8 ==> r == Ok::<i64, ShortBuffer>(
            signed64(be64(buf_view(*old(buf)))) as i64,
        ) && buf_view(*final(buf)) == buf_view(*old(buf)).skip(8),
{
    if buf_len(buf) < 8 {
        return Err(ShortBuffer);
    }
    let i = buf_get_i64(buf);
    Ok(i)
}

/// A framed payload of at least one byte is accepted by `remove_length_header`, which
/// reads back the payload's length and leaves exactly the payload.
pub proof fn law_frame_roundtrip(payload: Seq<u8>)
    requires
        1 <= payload.len() <= MAX_PAYLOAD,
    ensures
        framed(payload).len() >= 3,
        be16(framed(payload)) == payload.len(),
        framed(payload).skip(2) == payload,
{
    assert(framed(payload).skip(2) =~= payload);
}

/// A field without NUL bytes written before a NUL is read back whole, and reading it leaves
/// exactly what followed the NUL.
pub proof fn law_nul_field_roundtrip(field: Seq<u8>, rest: Seq<u8>)
    requires
        forall|i: int| 0 <= i < field.len() ==> field[i] != 0,
    ensures
        nul_field(field + seq![0u8] + rest) == field,
        after_nul_field(field + seq![0u8] + rest) == rest,
{
    let s = field + seq![0u8] + rest;
    lemma_nul_index_unique(s, field.len() as int);
    assert(s.take(field.len() as int) =~= field);
    assert(s.skip(field.len() as int + 1) =~= rest);
}

/// A string written as its UTF-8 bytes followed by a NUL is read back as the same text by
/// `get_next_string_utf8`, provided its bytes hold no NUL.
pub proof fn law_string_field_roundtrip(text: Seq<char>, rest: Seq<u8>)
    requires
        forall|i: int| 0 <= i < encode_utf8(text).len() ==> encode_utf8(text)[i] != 0,
    ensures
        valid_utf8(nul_field(encode_utf8(text) + seq![0u8] + rest)),
        decode_utf8(nul_field(encode_utf8(text) + seq![0u8] + rest)) == text,
        after_nul_field(encode_utf8(text) + seq![0u8] + rest) == rest,
{
    law_nul_field_roundtrip(encode_utf8(text), rest);
    encode_utf8_valid_utf8(text);
    encode_utf8_decode_utf8(text);
}

/// Printable ASCII bytes are shown as themselves.
pub proof fn law_printable_shown_as_is(s: Seq<u8>)
    requires
        forall|i: int| 0 <= i < s.len() ==> 0x20 <= #[trigger] s[i] <= 0x7e,
    ensures
        ascii_repr(s) == ascii_chars(s),
{
    lemma_escape_bytes_printable(s);
}

/// Escaping printable ASCII bytes leaves them as they are.
proof fn lemma_escape_bytes_printable(s: Seq<u8>)
    requires
        forall|i: int| 0 <= i < s.len() ==> 0x20 <= #[trigger] s[i] <= 0x7e,
    ensures
        escape_bytes(s) == s,
    decreases s.len(),
{
    if s.len() > 0 {
        lemma_escape_bytes_printable(s.drop_last());
        assert(s.drop_last().push(s.last()) =~= s);
    }
}

/// The value of a lower-case hexadecimal digit, or `None` for any other byte.
pub open spec fn hex_digit_value(c: u8) -> Option<int> {
    if 0x30 <= c <= 0x39 {
        Some(c - 0x30)
    } else if 0x61 <= c <= 0x66 {
        Some(c - 0x61 + 10)
    } else {
        None
    }
}

/// The sixteen digits are `0` to `9` and then `a` to `f`, in ASCII.
pub proof fn law_hex_digits()
    ensures
        hex_digit(0) == 0x30,
        hex_digit(1) == 0x31,
        hex_digit(2) == 0x32,
        hex_digit(3) == 0x33,
        hex_digit(4) == 0x34,
        hex_digit(5) == 0x35,
        hex_digit(6) == 0x36,
        hex_digit(7) == 0x37,
        hex_digit(8) == 0x38,
        hex_digit(9) == 0x39,
        hex_digit(10) == 0x61,
        hex_digit(11) == 0x62,
        hex_digit(12) == 0x63,
        hex_digit(13) == 0x64,
        hex_digit(14) == 0x65,
        hex_digit(15) == 0x66,
{
}

/// A byte that is not printable ASCII is shown as a backslash, an `x` and one or two
/// lower-case hexadecimal digits that read back as the byte: one digit below 16, else two,
/// the first of which is not `0`.
pub proof fn law_escape_reads_back(b: u8)
    requires
        !(0x20 <= b <= 0x7e),
    ensures
        escape_byte(b).len() == if b < 16 { 3int } else { 4int },
        escape_byte(b)[0] == 0x5c,
        escape_byte(b)[1] == 0x78,
        b < 16 ==> hex_digit_value(escape_byte(b)[2]) == Some(b as int),
        b >= 16 ==> hex_digit_value(escape_byte(b)[2]) is Some && hex_digit_value(
            escape_byte(b)[3],
        ) is Some && hex_digit_value(escape_byte(b)[2])->0 * 16 + hex_digit_value(
            escape_byte(b)[3],
        )->0 == b && hex_digit_value(escape_byte(b)[2])->0 != 0,
{
    if b >= 16 {
        assert((b / 16) * 16 + b % 16 == b);
    }
}

} // verus!
