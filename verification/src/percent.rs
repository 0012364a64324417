//! Percent encoding of address parts.

use crate::text::{decode_text, lemma_encode_joins};
use vstd::prelude::*;
use vstd::string::*;
use vstd::utf8::*;

verus! {

/// A hexadecimal digit in upper case.
pub open spec fn upper_hex_char(n: nat) -> char {
    if n < 10 {
        ('0' as u32 + n) as char
    } else {
        ('A' as u32 + (n - 10)) as char
    }
}

/// Two hexadecimal digits in upper case.
pub open spec fn upper_hex(byte: u8) -> Seq<char> {
    seq![upper_hex_char((byte / 16) as nat), upper_hex_char((byte % 16) as nat)]
}

fn to_upper_hex_char(n: u8) -> (c: char)
    requires
        n < 16,
    ensures
        c == upper_hex_char(n as nat),
{
    if n < 10 {
        (('0' as u8) + n) as char
    } else {
        (('A' as u8) + (n - 10)) as char
    }
}

/// Appends two hexadecimal digits in upper case.
pub fn push_upper_hex(text: &mut String, byte: u8)
    ensures
        final(text)@ == old(text)@ + upper_hex(byte),
{
    text.push(to_upper_hex_char(byte / 16));
    text.push(to_upper_hex_char(byte % 16));
    assert(text@ =~= old(text)@ + upper_hex(byte));
}

/// A byte that stands for itself in an address.
pub open spec fn unreserved(byte: u8) -> bool {
    ||| 48 <= byte <= 57
    ||| 65 <= byte <= 90
    ||| 97 <= byte <= 122
    ||| byte == 45
    ||| byte == 46
    ||| byte == 95
    ||| byte == 126
}

/// How a byte is written in an address.
pub open spec fn percent_byte(byte: u8) -> Seq<char> {
    if unreserved(byte) {
        seq![byte as char]
    } else {
        seq!['%'] + upper_hex(byte)
    }
}

/// How bytes are written in an address.
pub open spec fn percent_bytes(bytes: Seq<u8>) -> Seq<char>
    decreases bytes.len(),
{
    if bytes.len() == 0 {
        Seq::empty()
    } else {
        percent_byte(bytes[0]) + percent_bytes(bytes.skip(1))
    }
}

/// How a text is written in an address.
pub open spec fn percent_encoded(text: Seq<char>) -> Seq<char> {
    percent_bytes(encode_utf8(text))
}

/// Encodes a text for an address: letters, digits and `-._~` stand for themselves.
pub fn percent_encode(value: &str) -> (r: String)
    ensures
        r@ == percent_encoded(value@),
{
    let bytes = value.as_bytes();
    let mut out = String::new();
    assert(bytes@.skip(0) =~= bytes@);
    for i in 0..bytes.len()
        invariant
            out@ + percent_bytes(bytes@.skip(i as int)) == percent_bytes(bytes@),
    {
        let byte: u8 = bytes[i];
        let ghost before = out@;
        if (48 <= byte && byte <= 57) || (65 <= byte && byte <= 90) || (97 <= byte && byte <= 122)
            || byte == 45 || byte == 46 || byte == 95 || byte == 126 {
            out.push(byte as char);
        } else {
            out.push('%');
            push_upper_hex(&mut out, byte);
        }
        proof {
            assert(out@ =~= before + percent_byte(byte));
            assert(bytes@.skip(i as int)[0] == byte);
            assert(bytes@.skip(i as int).skip(1) =~= bytes@.skip(i + 1));
            assert(out@ + percent_bytes(bytes@.skip(i + 1)) =~= before + percent_bytes(
                bytes@.skip(i as int),
            ));
        }
    }
    assert(bytes@.skip(bytes@.len() as int) =~= Seq::<u8>::empty());
    assert(out@ =~= percent_bytes(bytes@));
    out
}

/// The value of a hexadecimal digit of either case.
pub open spec fn hex_value(byte: u8) -> Option<u8> {
    if 48 <= byte <= 57 {
        Some((byte - 48) as u8)
    } else if 97 <= byte <= 102 {
        Some((byte - 97 + 10) as u8)
    } else if 65 <= byte <= 70 {
        Some((byte - 65 + 10) as u8)
    } else {
        None
    }
}

/// The bytes that an address part stands for; none where a percent sign has no two digits.
pub open spec fn percent_decoded(bytes: Seq<u8>) -> Option<Seq<u8>>
    decreases bytes.len(),
{
    if bytes.len() == 0 {
        Some(Seq::empty())
    } else if bytes[0] == 37 {
        if bytes.len() < 3 || hex_value(bytes[1]) is None || hex_value(bytes[2]) is None {
            None
        } else {
            let value = (hex_value(bytes[1])->0 * 16 + hex_value(bytes[2])->0) as u8;
            match percent_decoded(bytes.skip(3)) {
                Some(rest) => Some(seq![value] + rest),
                None => None,
            }
        }
    } else {
        match percent_decoded(bytes.skip(1)) {
            Some(rest) => Some(seq![bytes[0]] + rest),
            None => None,
        }
    }
}

/// Why an address part stands for no text.
#[derive(Clone, Copy, Debug, Eq, PartialEq, Structural)]
pub enum PercentError {
    InvalidEncoding,
    NotUtf8,
}

impl PercentError {
    pub fn message(self) -> (r: &'static str)
        ensures
            r@ == (match self {
                PercentError::InvalidEncoding => "invalid percent encoding"@,
                PercentError::NotUtf8 => "path is not UTF-8"@,
            }),
    {
        match self {
            PercentError::InvalidEncoding => "invalid percent encoding",
            PercentError::NotUtf8 => "path is not UTF-8",
        }
    }
}

fn hex(byte: u8) -> (r: Option<u8>)
    ensures
        r == hex_value(byte),
        r is Some ==> r->0 < 16,
{
    if 48 <= byte && byte <= 57 {
        Some(byte - 48)
    } else if 97 <= byte && byte <= 102 {
        Some(byte - 97 + 10)
    } else if 65 <= byte && byte <= 70 {
        Some(byte - 65 + 10)
    } else {
        None
    }
}

/// What is decoded so far and what is still to be decoded make the whole.
spec fn continues(done: Seq<u8>, rest: Option<Seq<u8>>, whole: Option<Seq<u8>>) -> bool {
    match rest {
        Some(rest) => whole == Some(done + rest),
        None => whole is None,
    }
}

/// Decodes an address part.
pub fn percent_decode(value: &str) -> (r: Result<String, PercentError>)
    ensures
        ({
            let decoded = percent_decoded(encode_utf8(value@));
            match r {
                Ok(text) => decoded is Some && valid_utf8(decoded->0) && text@ == decode_utf8(
                    decoded->0,
                ),
                Err(PercentError::InvalidEncoding) => decoded is None,
                Err(PercentError::NotUtf8) => decoded is Some && !valid_utf8(decoded->0),
            }
        }),
{
    let bytes = value.as_bytes();
    let total: usize = bytes.len();
    let mut decoded: Vec<u8> = Vec::new();
    let mut i: usize = 0;
    proof {
        assert(bytes@.skip(0) =~= bytes@);
        if percent_decoded(bytes@) is Some {
            assert(decoded@ + percent_decoded(bytes@)->0 =~= percent_decoded(bytes@)->0);
        }
    }
    while i < total
        invariant
            total == bytes@.len(),
            bytes@ == encode_utf8(value@),
            i <= total,
            continues(decoded@, percent_decoded(bytes@.skip(i as int)), percent_decoded(bytes@)),
        decreases total - i,
    {
        let ghost rest = bytes@.skip(i as int);
        let ghost done = decoded@;
        if bytes[i] == 37 {
            if total - i < 3 {
                return Err(PercentError::InvalidEncoding);
            }
            assert(rest[1] == bytes@[i + 1] && rest[2] == bytes@[i + 2]);
            match (hex(bytes[i + 1]), hex(bytes[i + 2])) {
                (Some(high), Some(low)) => {
                    decoded.push(high * 16 + low);
                    proof {
                        assert(rest.skip(3) =~= bytes@.skip(i + 3));
                        let value = (high * 16 + low) as u8;
                        if percent_decoded(bytes@.skip(i + 3)) is Some {
                            let tail = percent_decoded(bytes@.skip(i + 3))->0;
                            assert(done + (seq![value] + tail) =~= decoded@ + tail);
                        }
                    }
                    i = i + 3;
                },
                _ => {
                    return Err(PercentError::InvalidEncoding);
                },
            }
        } else {
            decoded.push(bytes[i]);
            proof {
                assert(rest.skip(1) =~= bytes@.skip(i + 1));
                if percent_decoded(bytes@.skip(i + 1)) is Some {
                    let tail = percent_decoded(bytes@.skip(i + 1))->0;
                    assert(done + (seq![rest[0]] + tail) =~= decoded@ + tail);
                }
            }
            i = i + 1;
        }
    }
    proof {
        assert(bytes@.skip(total as int) =~= Seq::<u8>::empty());
        assert(decoded@ + Seq::<u8>::empty() =~= decoded@);
    }
    match decode_text(decoded) {
        Ok(text) => Ok(text),
        Err(_) => Err(PercentError::NotUtf8),
    }
}

proof fn lemma_ascii_bytes(text: Seq<char>)
    requires
        is_ascii_chars(text),
    ensures
        encode_utf8(text).len() == text.len(),
        forall|i: int| 0 <= i < text.len() ==> #[trigger] encode_utf8(text)[i] == text[i] as u8,
{
    is_ascii_chars_encode_utf8(text);
}

proof fn lemma_percent_byte(byte: u8, rest: Seq<u8>)
    ensures
        percent_decoded(encode_utf8(percent_byte(byte)) + rest) == (match percent_decoded(rest) {
            Some(tail) => Some(seq![byte] + tail),
            None => None,
        }),
{
    let written = percent_byte(byte);
    lemma_ascii_bytes(written);
    let bytes = encode_utf8(written) + rest;
    if unreserved(byte) {
        assert(bytes[0] == byte);
        assert(bytes.skip(1) =~= rest);
    } else {
        let high = byte / 16;
        let low = byte % 16;
        assert(written.len() == 3);
        assert(bytes[0] == 37);
        assert(bytes[1] == upper_hex_char(high as nat) as u8);
        assert(bytes[2] == upper_hex_char(low as nat) as u8);
        assert(hex_value(bytes[1]) == Some(high));
        assert(hex_value(bytes[2]) == Some(low));
        assert(bytes.skip(3) =~= rest);
        assert(high * 16 + low == byte);
    }
}

proof fn lemma_percent_reads_back(bytes: Seq<u8>)
    ensures
        percent_decoded(encode_utf8(percent_bytes(bytes))) == Some(bytes),
    decreases bytes.len(),
{
    if bytes.len() == 0 {
        assert(percent_bytes(bytes) =~= Seq::<char>::empty());
        assert(encode_utf8(Seq::<char>::empty()) =~= Seq::<u8>::empty());
        assert(bytes =~= Seq::<u8>::empty());
    } else {
        let head = percent_byte(bytes[0]);
        let tail = percent_bytes(bytes.skip(1));
        lemma_percent_reads_back(bytes.skip(1));
        lemma_encode_joins(head, tail);
        lemma_percent_byte(bytes[0], encode_utf8(tail));
        assert(seq![bytes[0]] + bytes.skip(1) =~= bytes);
    }
}

/// Decoding gives back every text that was encoded.
pub proof fn law_percent_reads_back(text: Seq<char>)
    ensures
        ({
            let decoded = percent_decoded(encode_utf8(percent_encoded(text)));
            &&& decoded is Some
            &&& valid_utf8(decoded->0)
            &&& decode_utf8(decoded->0) == text
        }),
{
    lemma_percent_reads_back(encode_utf8(text));
    encode_utf8_valid_utf8(text);
    encode_utf8_decode_utf8(text);
}

/// A byte is written in an address either as the letter, digit or one of the four marks that it is, or
/// as a percent sign and two digits; nothing else appears.
pub proof fn law_percent_writes_safe_characters(bytes: Seq<u8>, i: int)
    requires
        0 <= i < percent_bytes(bytes).len(),
    ensures
        ({
            let c = percent_bytes(bytes)[i];
            ||| 'a' <= c <= 'z'
            ||| 'A' <= c <= 'Z'
            ||| '0' <= c <= '9'
            ||| c == '-' || c == '.' || c == '_' || c == '~' || c == '%'
        }),
    decreases bytes.len(),
{
    if bytes.len() > 0 {
        let first = percent_byte(bytes[0]);
        if i >= first.len() {
            law_percent_writes_safe_characters(bytes.skip(1), i - first.len());
        } else {
            assert(percent_bytes(bytes)[i] == first[i]);
        }
    }
}

/// A letter, a digit, a hyphen, a full stop, an underscore and a tilde stand for themselves; every
/// other byte takes three characters.
pub proof fn law_percent_leaves_plain_bytes(byte: u8)
    ensures
        ({
            let c = byte as char;
            let plain = 'a' <= c <= 'z' || 'A' <= c <= 'Z' || '0' <= c <= '9' || c == '-' || c
                == '.' || c == '_' || c == '~';
            &&& plain ==> percent_byte(byte) == seq![c]
            &&& !plain ==> percent_byte(byte).len() == 3 && percent_byte(byte)[0] == '%'
        }),
{
}

/// A percent sign without two hexadecimal digits behind it makes an address part unreadable.
pub proof fn law_bad_percent_is_refused(front: Seq<u8>, behind: Seq<u8>)
    requires
        forall|i: int| 0 <= i < front.len() ==> #[trigger] front[i] != 37,
        behind.len() < 2 || !(48 <= behind[0] <= 57 || 65 <= behind[0] <= 70 || 97 <= behind[0]
            <= 102) || !(48 <= behind[1] <= 57 || 65 <= behind[1] <= 70 || 97 <= behind[1] <= 102),
    ensures
        percent_decoded(front.push(37) + behind) is None,
        percent_decoded(front) == Some(front),
    decreases front.len(),
{
    let whole = front.push(37) + behind;
    if front.len() == 0 {
        assert(whole[0] == 37);
        if behind.len() >= 2 {
            assert(whole[1] == behind[0] && whole[2] == behind[1]);
        }
        assert(percent_decoded(front) == Some(Seq::<u8>::empty()));
        assert(front =~= Seq::<u8>::empty());
    } else {
        let rest = front.skip(1);
        assert forall|i: int| 0 <= i < rest.len() implies #[trigger] rest[i] != 37 by {
            assert(rest[i] == front[i + 1]);
        }
        law_bad_percent_is_refused(rest, behind);
        assert(whole.skip(1) =~= rest.push(37) + behind);
        assert(whole[0] == front[0]);
        assert(seq![front[0]] + rest =~= front);
    }
}

} // verus!
