//! Percent-encoding of text for request addresses.

use vstd::prelude::*;
use vstd::string::StringSliceAdditionalSpecFns;
use percent_encoding::{percent_encode, NON_ALPHANUMERIC};

verus! {

/// The upper-case hexadecimal digit for `d`.
pub open spec fn hex_digit(d: nat) -> char {
    seq!['0', '1', '2', '3', '4', '5', '6', '7', '8', '9', 'A', 'B', 'C', 'D', 'E', 'F'][d as int]
}

/// `%` followed by the two hexadecimal digits of `b`.
pub open spec fn escaped(b: u8) -> Seq<char> {
    seq!['%', hex_digit(b as nat / 16), hex_digit(b as nat % 16)]
}

pub open spec fn is_ascii_alphanumeric(b: u8) -> bool {
    (48 <= b <= 57) || (65 <= b <= 90) || (97 <= b <= 122)
}

/// Percent-encoding where only ASCII letters and digits stand for
/// themselves.
pub open spec fn percent_encoded(bs: Seq<u8>) -> Seq<char>
    decreases bs.len(),
{
    if bs.len() == 0 {
        seq![]
    } else {
        percent_encoded(bs.drop_last()) + if is_ascii_alphanumeric(bs.last()) {
            seq![bs.last() as char]
        } else {
            escaped(bs.last())
        }
    }
}

/// The form encoding of one byte: letters, digits and `*-._` stand for
/// themselves, a space becomes `+`, any other byte is escaped.
pub open spec fn form_encoded_byte(b: u8) -> Seq<char> {
    if is_ascii_alphanumeric(b) || b == 42 || b == 45 || b == 46 || b == 95 {
        seq![b as char]
    } else if b == 32 {
        seq!['+']
    } else {
        escaped(b)
    }
}

/// The `application/x-www-form-urlencoded` serialization of bytes.
pub open spec fn form_encoded(bs: Seq<u8>) -> Seq<char>
    decreases bs.len(),
{
    if bs.len() == 0 {
        seq![]
    } else {
        form_encoded(bs.drop_last()) + form_encoded_byte(bs.last())
    }
}

/// Relies on `percent_encoding::percent_encode` with `NON_ALPHANUMERIC`:
/// every byte outside ASCII letters and digits becomes `%` and two
/// upper-case hexadecimal digits.
#[verifier::external_body]
pub(crate) fn percent_encode_text(s: &str) -> (r: String)
    ensures
        r@ == percent_encoded(s.spec_bytes()),
{
    percent_encode(s.as_bytes(), NON_ALPHANUMERIC).to_string()
}

/// Relies on `url::form_urlencoded::byte_serialize`, the serializer behind
/// `Url::query_pairs_mut().append_pair`: letters, digits and `*-._` stay,
/// a space becomes `+`, any other byte is `%` and two upper-case
/// hexadecimal digits.
#[verifier::external_body]
pub(crate) fn form_encode(s: &str) -> (r: String)
    ensures
        r@ == form_encoded(s.spec_bytes()),
{
    url::form_urlencoded::byte_serialize(s.as_bytes()).collect()
}

} // verus!
