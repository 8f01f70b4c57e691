//! The `application/x-www-form-urlencoded` form of a text.

use vstd::prelude::*;
use vstd::utf8::encode_utf8;

verus! {

/// Bytes that the encoding leaves as they are: ASCII letters and digits and
/// `*`, `-`, `.` and `_`.
pub open spec fn kept_as_is(byte: u8) -> bool {
    ||| byte == 0x2a
    ||| byte == 0x2d
    ||| byte == 0x2e
    ||| byte == 0x5f
    ||| 0x30 <= byte <= 0x39
    ||| 0x41 <= byte <= 0x5a
    ||| 0x61 <= byte <= 0x7a
}

/// The character of a hexadecimal digit, in upper case.
pub open spec fn hex_char(digit: int) -> char {
    seq!['0', '1', '2', '3', '4', '5', '6', '7', '8', '9', 'A', 'B', 'C', 'D', 'E', 'F'][digit]
}

/// What one byte is encoded as: itself, `+` for a space, or `%` and its two
/// hexadecimal digits.
pub open spec fn encoded_byte(byte: u8) -> Seq<char> {
    if kept_as_is(byte) {
        seq![byte as char]
    } else if byte == 0x20 {
        seq!['+']
    } else {
        seq!['%', hex_char(byte as int / 16), hex_char(byte as int % 16)]
    }
}

/// What a sequence of bytes is encoded as, byte by byte.
pub open spec fn form_encoded(bytes: Seq<u8>) -> Seq<char>
    decreases bytes.len(),
{
    if bytes.len() == 0 {
        Seq::empty()
    } else {
        form_encoded(bytes.drop_last()) + encoded_byte(bytes.last())
    }
}

/// Calls `url::form_urlencoded::byte_serialize` on the bytes of the text and
/// joins the pieces. The serializer walks the bytes in order and hands out
/// each as `encoded_byte` says.
#[verifier::external_body]
pub(crate) fn byte_serialized(text: &str) -> (encoded: String)
    ensures
        encoded@ == form_encoded(encode_utf8(text@)),
{
    url::form_urlencoded::byte_serialize(text.as_bytes()).collect()
}

} // verus!
