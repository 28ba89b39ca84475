//! How a consumed record is shown: its key, value and headers as text,
//! hexadecimal or base64 previews of bounded size.
use vstd::prelude::*;
use vstd::string::*;
use vstd::utf8::*;

use base64::engine::general_purpose::STANDARD;
use base64::Engine;

use crate::text::{chars_of, is_control, opt_text, push_char, spec_is_control};

verus! {

/// A consumed record, as plain values.
#[derive(Debug, Clone, PartialEq, Eq)]
pub struct RawMessage {
    pub topic: String,
    pub partition: i32,
    pub offset: i64,
    pub timestamp: Option<i64>,
    pub key: Option<Vec<u8>>,
    pub payload: Option<Vec<u8>>,
    pub headers: Vec<RawHeader>,
}

/// A record header, as plain values.
#[derive(Debug, Clone, PartialEq, Eq)]
pub struct RawHeader {
    pub key: String,
    pub value: Option<Vec<u8>>,
}

/// A record as it is shown.
#[derive(Debug, Clone, PartialEq, Eq)]
pub struct MessageDto {
    pub topic: String,
    pub partition: i32,
    pub offset: i64,
    pub timestamp: Option<i64>,
    pub key: Option<String>,
    pub value_preview: String,
    pub value_encoding: String,
    pub value_size: usize,
    pub truncated: bool,
    pub headers: Vec<HeaderDto>,
}

/// A record header as it is shown.
#[derive(Debug, Clone, PartialEq, Eq)]
pub struct HeaderDto {
    pub key: String,
    pub value: Option<String>,
}

/// The lower-case hexadecimal digit of `d < 16`.
pub open spec fn hex_digit(d: nat) -> char {
    if d < 10 {
        crate::text::digit_char(d)
    } else if d == 10 {
        'a'
    } else if d == 11 {
        'b'
    } else if d == 12 {
        'c'
    } else if d == 13 {
        'd'
    } else if d == 14 {
        'e'
    } else {
        'f'
    }
}

/// Two lower-case hexadecimal digits per byte, high digit first.
pub open spec fn hex_of(bytes: Seq<u8>) -> Seq<char>
    decreases bytes.len(),
{
    if bytes.len() == 0 {
        Seq::<char>::empty()
    } else {
        hex_of(bytes.drop_last()) + seq![
            hex_digit((bytes.last() / 16) as nat),
            hex_digit((bytes.last() % 16) as nat),
        ]
    }
}

/// Law: the digit for each value below 16 is the character at that place
/// in `0123456789abcdef`.
pub proof fn law_hex_digits()
    ensures
        forall|d: nat| d < 16 ==> #[trigger] hex_digit(d) == "0123456789abcdef"@[d as int],
{
    reveal_strlit("0123456789abcdef");
    assert forall|d: nat| d < 16 implies #[trigger] hex_digit(d) == "0123456789abcdef"@[d as int] by {
        if d == 0 {
        } else if d == 1 {
        } else if d == 2 {
        } else if d == 3 {
        } else if d == 4 {
        } else if d == 5 {
        } else if d == 6 {
        } else if d == 7 {
        } else if d == 8 {
        } else if d == 9 {
        } else if d == 10 {
        } else if d == 11 {
        } else if d == 12 {
        } else if d == 13 {
        } else if d == 14 {
        } else {
        }
    }
}

/// Law: the hexadecimal text of `bytes` has two characters per byte: the
/// digit of the byte's high four bits, then that of its low four bits, each
/// taken from `0123456789abcdef`.
pub proof fn law_hex_text(bytes: Seq<u8>)
    ensures
        hex_of(bytes).len() == 2 * bytes.len(),
        forall|i: int|
            0 <= i < bytes.len() ==> hex_of(bytes)[2 * i] == "0123456789abcdef"@[(#[trigger] bytes[i]
                / 16) as int] && hex_of(bytes)[2 * i + 1] == "0123456789abcdef"@[(bytes[i] % 16) as int],
    decreases bytes.len(),
{
    law_hex_digits();
    if bytes.len() > 0 {
        let init = bytes.drop_last();
        law_hex_text(init);
        let n = bytes.len() - 1;
        assert forall|i: int| 0 <= i < bytes.len() implies hex_of(bytes)[2 * i]
            == "0123456789abcdef"@[(#[trigger] bytes[i] / 16) as int] && hex_of(bytes)[2 * i + 1]
            == "0123456789abcdef"@[(bytes[i] % 16) as int] by {
            if i < n {
                assert(bytes[i] == init[i]);
            } else {
                assert(hex_digit((bytes[i] / 16) as nat) == "0123456789abcdef"@[(bytes[i] / 16) as int]);
                assert(hex_digit((bytes[i] % 16) as nat) == "0123456789abcdef"@[(bytes[i] % 16) as int]);
            }
        }
    }
}

fn hex_char(d: u8) -> (c: char)
    requires
        d < 16,
    ensures
        c == hex_digit(d as nat),
{
    if d == 0 {
        '0'
    } else if d == 1 {
        '1'
    } else if d == 2 {
        '2'
    } else if d == 3 {
        '3'
    } else if d == 4 {
        '4'
    } else if d == 5 {
        '5'
    } else if d == 6 {
        '6'
    } else if d == 7 {
        '7'
    } else if d == 8 {
        '8'
    } else if d == 9 {
        '9'
    } else if d == 10 {
        'a'
    } else if d == 11 {
        'b'
    } else if d == 12 {
        'c'
    } else if d == 13 {
        'd'
    } else if d == 14 {
        'e'
    } else {
        'f'
    }
}

/// The lower-case hexadecimal form of `bytes`.
pub fn to_hex(bytes: &[u8]) -> (r: String)
    ensures
        r@ == hex_of(bytes@),
{
    let mut out = String::new();
    let mut i: usize = 0;
    while i < bytes.len()
        invariant
            i <= bytes@.len(),
            out@ == hex_of(bytes@.take(i as int)),
        decreases bytes@.len() - i,
    {
        let byte = bytes[i];
        push_char(&mut out, hex_char(byte / 16));
        push_char(&mut out, hex_char(byte % 16));
        assert(bytes@.take(i + 1).drop_last() =~= bytes@.take(i as int));
        assert(out@ =~= hex_of(bytes@.take(i + 1)));
        i = i + 1;
    }
    assert(bytes@.take(bytes@.len() as int) =~= bytes@);
    out
}

/// The character of the standard base64 alphabet for the six-bit value `v`:
/// `A`-`Z`, `a`-`z`, `0`-`9`, `+`, `/`.
pub open spec fn base64_digit(v: nat) -> char {
    if v < 26 {
        (v + 65) as char
    } else if v < 52 {
        (v - 26 + 97) as char
    } else if v < 62 {
        (v - 52 + 48) as char
    } else if v == 62 {
        '+'
    } else {
        '/'
    }
}

/// The standard base64 encoding (RFC 4648 alphabet, `=` padding) of a byte
/// sequence: each three bytes give four characters, and a last group of one
/// or two bytes is padded to four with `=`.
pub open spec fn base64_standard(bytes: Seq<u8>) -> Seq<char>
    decreases bytes.len(),
{
    if bytes.len() == 0 {
        Seq::<char>::empty()
    } else if bytes.len() == 1 {
        let b0 = bytes[0];
        seq![base64_digit((b0 / 4) as nat), base64_digit(((b0 % 4) * 16) as nat), '=', '=']
    } else if bytes.len() == 2 {
        let b0 = bytes[0];
        let b1 = bytes[1];
        seq![
            base64_digit((b0 / 4) as nat),
            base64_digit(((b0 % 4) * 16 + b1 / 16) as nat),
            base64_digit(((b1 % 16) * 4) as nat),
            '=',
        ]
    } else {
        let b0 = bytes[0];
        let b1 = bytes[1];
        let b2 = bytes[2];
        seq![
            base64_digit((b0 / 4) as nat),
            base64_digit(((b0 % 4) * 16 + b1 / 16) as nat),
            base64_digit(((b1 % 16) * 4 + b2 / 64) as nat),
            base64_digit((b2 % 64) as nat),
        ] + base64_standard(bytes.skip(3))
    }
}

/// The standard base64 encoding of `bytes`.
///
/// Trusted: calls `base64::engine::general_purpose::STANDARD.encode`, the
/// RFC 4648 standard alphabet with `=` padding, as `base64_standard`
/// states it.
#[verifier::external_body]
fn base64_encode(bytes: &[u8]) -> (r: String)
    ensures
        r@ == base64_standard(bytes@),
{
    STANDARD.encode(bytes)
}

/// The text that `bytes` encode, when they are valid UTF-8.
///
/// Trusted: calls `std::str::from_utf8`, which succeeds exactly on valid
/// UTF-8 and then yields the characters the bytes encode.
#[verifier::external_body]
fn utf8_text(bytes: &[u8]) -> (r: Option<String>)
    ensures
        r is Some <==> valid_utf8(bytes@),
        r matches Some(s) ==> s@ == decode_utf8(bytes@),
{
    match std::str::from_utf8(bytes) {
        Ok(text) => Some(text.to_string()),
        Err(_) => None,
    }
}

/// A character a text preview may hold: no control code but line feed,
/// carriage return and tab.
pub open spec fn displayable(c: char) -> bool {
    !spec_is_control(c) || c == '\n' || c == '\r' || c == '\t'
}

/// `bytes` are UTF-8 text of displayable characters.
pub open spec fn is_display_text(bytes: Seq<u8>) -> bool {
    valid_utf8(bytes) && forall|i: int|
        0 <= i < decode_utf8(bytes).len() ==> displayable(#[trigger] decode_utf8(bytes)[i])
}

/// The bytes a preview of at most `max` bytes shows.
pub open spec fn preview_slice(bytes: Seq<u8>, max: nat) -> Seq<u8> {
    if bytes.len() > max {
        bytes.take(max as int)
    } else {
        bytes
    }
}

/// The preview text of the first `max` bytes of `bytes`: the text itself,
/// else hexadecimal for at most 64 bytes, else base64.
pub open spec fn preview_text(bytes: Seq<u8>, max: nat) -> Seq<char> {
    let slice = preview_slice(bytes, max);
    if slice.len() == 0 {
        Seq::<char>::empty()
    } else if is_display_text(slice) {
        decode_utf8(slice)
    } else if slice.len() <= 64 {
        hex_of(slice)
    } else {
        base64_standard(slice)
    }
}

/// The encoding the preview text is in.
pub open spec fn preview_encoding(bytes: Seq<u8>, max: nat) -> Seq<char> {
    let slice = preview_slice(bytes, max);
    if slice.len() == 0 || is_display_text(slice) {
        "utf8"@
    } else if slice.len() <= 64 {
        "hex"@
    } else {
        "base64"@
    }
}

fn all_displayable(text: &String) -> (r: bool)
    ensures
        r == forall|i: int| 0 <= i < text@.len() ==> displayable(#[trigger] text@[i]),
{
    let chars = chars_of(text.as_str());
    let mut i: usize = 0;
    while i < chars.len()
        invariant
            i <= chars@.len(),
            chars@ == text@,
            forall|j: int| 0 <= j < i ==> displayable(#[trigger] text@[j]),
        decreases chars@.len() - i,
    {
        let c = chars[i];
        if is_control(c) && c != '\n' && c != '\r' && c != '\t' {
            assert(!displayable(text@[i as int]));
            return false;
        }
        i = i + 1;
    }
    true
}

/// A preview of at most `max_preview_bytes` of `bytes`: its text, the
/// encoding of that text, and whether bytes were cut off.
pub fn decode_bytes_preview(bytes: &[u8], max_preview_bytes: usize) -> (r: (String, String, bool))
    ensures
        r.0@ == preview_text(bytes@, max_preview_bytes as nat),
        r.1@ == preview_encoding(bytes@, max_preview_bytes as nat),
        r.2 == (bytes@.len() > max_preview_bytes),
{
    let truncated = bytes.len() > max_preview_bytes;
    let slice = if truncated {
        bytes.split_at(max_preview_bytes).0
    } else {
        bytes
    };
    assert(slice@ == preview_slice(bytes@, max_preview_bytes as nat));
    if slice.len() == 0 {
        return (String::new(), "utf8".to_owned(), truncated);
    }
    if let Some(text) = utf8_text(slice) {
        if all_displayable(&text) {
            return (text, "utf8".to_owned(), truncated);
        }
    }
    if slice.len() <= 64 {
        return (to_hex(slice), "hex".to_owned(), truncated);
    }
    (base64_encode(slice), "base64".to_owned(), truncated)
}

/// The preview of an optional byte string.
pub open spec fn opt_preview(bytes: Option<Vec<u8>>, max: nat) -> Option<Seq<char>> {
    match bytes {
        Some(b) => Some(preview_text(b@, max)),
        None => None,
    }
}

/// The header limit: headers are previewed to at most 256 bytes.
pub open spec fn header_limit(max: nat) -> nat {
    if max < 256 {
        max
    } else {
        256
    }
}

/// `h` shows the header `raw` with previews of at most `max` bytes.
pub open spec fn shows_header(h: HeaderDto, raw: RawHeader, max: nat) -> bool {
    h.key@ == raw.key@ && opt_text(h.value) == opt_preview(raw.value, header_limit(max))
}

/// The value bytes of a record: none reads as empty.
pub open spec fn payload_bytes(raw: RawMessage) -> Seq<u8> {
    match raw.payload {
        Some(p) => p@,
        None => Seq::<u8>::empty(),
    }
}

/// `m` shows the record `raw` with previews of at most `max` bytes.
pub open spec fn shows_message(m: MessageDto, raw: RawMessage, max: nat) -> bool {
    &&& m.topic@ == raw.topic@
    &&& m.partition == raw.partition
    &&& m.offset == raw.offset
    &&& m.timestamp == raw.timestamp
    &&& opt_text(m.key) == opt_preview(raw.key, max)
    &&& m.value_preview@ == preview_text(payload_bytes(raw), max)
    &&& m.value_encoding@ == preview_encoding(payload_bytes(raw), max)
    &&& m.value_size == payload_bytes(raw).len()
    &&& m.truncated == (payload_bytes(raw).len() > max)
    &&& m.headers@.len() == raw.headers@.len()
    &&& forall|i: int|
        0 <= i < m.headers@.len() ==> shows_header(#[trigger] m.headers@[i], raw.headers@[i], max)
}

fn preview_opt(bytes: &Option<Vec<u8>>, max_preview_bytes: usize) -> (r: Option<String>)
    ensures
        opt_text(r) == opt_preview(*bytes, max_preview_bytes as nat),
{
    match bytes {
        Some(b) => Some(decode_bytes_preview(b.as_slice(), max_preview_bytes).0),
        None => None,
    }
}

/// How a consumed record is shown, with previews of at most
/// `max_preview_bytes` (headers at most 256).
pub fn decode_message(message: &RawMessage, max_preview_bytes: usize) -> (r: MessageDto)
    ensures
        shows_message(r, *message, max_preview_bytes as nat),
{
    let key = preview_opt(&message.key, max_preview_bytes);
    let empty: Vec<u8> = Vec::new();
    let payload: &Vec<u8> = match &message.payload {
        Some(p) => p,
        None => &empty,
    };
    assert(payload@ == payload_bytes(*message));
    let (value_preview, value_encoding, truncated) = decode_bytes_preview(
        payload.as_slice(),
        max_preview_bytes,
    );
    let header_max: usize = if max_preview_bytes < 256 {
        max_preview_bytes
    } else {
        256
    };
    let mut headers: Vec<HeaderDto> = Vec::new();
    let mut i: usize = 0;
    while i < message.headers.len()
        invariant
            i <= message.headers@.len(),
            header_max == header_limit(max_preview_bytes as nat),
            headers@.len() == i,
            forall|j: int|
                0 <= j < i ==> shows_header(
                    #[trigger] headers@[j],
                    message.headers@[j],
                    max_preview_bytes as nat,
                ),
        decreases message.headers@.len() - i,
    {
        let h = &message.headers[i];
        headers.push(HeaderDto { key: h.key.clone(), value: preview_opt(&h.value, header_max) });
        i = i + 1;
    }
    MessageDto {
        topic: message.topic.clone(),
        partition: message.partition,
        offset: message.offset,
        timestamp: message.timestamp,
        key,
        value_preview,
        value_encoding,
        value_size: payload.len(),
        truncated,
        headers,
    }
}

} // verus!
