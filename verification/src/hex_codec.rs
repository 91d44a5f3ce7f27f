//! Hexadecimal text: which bytes are hex digits, what a text decodes to and
//! what bytes encode to.
//!
//! A text is taken by its bytes: for a `&str`, the bytes of its UTF-8 form,
//! so that a character outside ASCII is so many bytes that are no hex
//! digits.

use vstd::prelude::*;
use vstd::string::StringSliceAdditionalSpecFns;

use crate::error::Error;

verus! {

/// `c` is one of `0-9`, `A-F`, `a-f`.
pub open spec fn is_hex_digit(c: u8) -> bool {
    ||| 0x30 <= c <= 0x39
    ||| 0x41 <= c <= 0x46
    ||| 0x61 <= c <= 0x66
}

/// The number a hex digit stands for.
pub open spec fn digit_value(c: u8) -> int
    recommends
        is_hex_digit(c),
{
    if c <= 0x39 {
        c - 0x30
    } else if c <= 0x46 {
        c - 0x41 + 10
    } else {
        c - 0x61 + 10
    }
}

/// The lower-case hex digit for a number below 16.
pub open spec fn digit_of(v: u8) -> u8
    recommends
        v < 16,
{
    if v < 10 {
        (0x30 + v) as u8
    } else {
        (0x61 + v - 10) as u8
    }
}

/// Every byte of `t` is a hex digit.
pub open spec fn is_hex_text(t: Seq<u8>) -> bool {
    forall|i: int| 0 <= i < t.len() ==> is_hex_digit(#[trigger] t[i])
}

/// `p` is the offset of the first byte of `t` that is no hex digit.
pub open spec fn is_first_non_hex(t: Seq<u8>, p: int) -> bool {
    &&& 0 <= p < t.len()
    &&& !is_hex_digit(t[p])
    &&& forall|j: int| 0 <= j < p ==> is_hex_digit(#[trigger] t[j])
}

/// The bytes that the digit pairs of `t` stand for, high digit first.
pub open spec fn pairs_value(t: Seq<u8>) -> Seq<u8> {
    Seq::new(t.len() / 2, |i: int| (digit_value(t[2 * i]) * 16 + digit_value(t[2 * i + 1])) as u8)
}

/// `t`, with a `0` put in front where its length is odd.
pub open spec fn padded(t: Seq<u8>) -> Seq<u8> {
    if t.len() % 2 == 1 {
        seq![0x30u8] + t
    } else {
        t
    }
}

/// The bytes that a hex text of any length stands for.
pub open spec fn hex_value(t: Seq<u8>) -> Seq<u8> {
    pairs_value(padded(t))
}

/// The offset of the first byte of `t` that is no hex digit, where there is
/// one.
pub open spec fn first_non_hex_position(t: Seq<u8>) -> int {
    choose|p: int| is_first_non_hex(t, p)
}

/// What decoding the text `t` gives: its bytes, or where it stops being hex.
pub open spec fn hex_parse(t: Seq<u8>) -> Result<Seq<u8>, Error> {
    if is_hex_text(t) {
        Ok(hex_value(t))
    } else {
        Err(Error::CodecHex { position: first_non_hex_position(t) as usize })
    }
}

/// A result with the value it holds replaced by that value's view.
pub open spec fn viewed<T: View>(r: Result<T, Error>) -> Result<T::V, Error> {
    match r {
        Ok(v) => Ok(v@),
        Err(e) => Err(e),
    }
}

/// A text has at most one first byte that is no hex digit.
pub proof fn lemma_first_non_hex_is_unique(t: Seq<u8>, p: int)
    requires
        is_first_non_hex(t, p),
    ensures
        first_non_hex_position(t) == p,
        !is_hex_text(t),
{
    let q = first_non_hex_position(t);
    assert(is_first_non_hex(t, q));
    if q < p {
        assert(is_hex_digit(t[q]));
    }
    if p < q {
        assert(is_hex_digit(t[p]));
    }
}

/// The lower-case hex text of `b`, as bytes: two digits per byte.
pub open spec fn hex_text(b: Seq<u8>) -> Seq<u8> {
    Seq::new(
        2 * b.len(),
        |i: int|
            if i % 2 == 0 {
                digit_of(b[i / 2] / 16)
            } else {
                digit_of(b[i / 2] % 16)
            },
    )
}

/// The lower-case hex text of `b`, as characters.
pub open spec fn hex_string(b: Seq<u8>) -> Seq<char> {
    Seq::new(hex_text(b).len(), |i: int| hex_text(b)[i] as char)
}

/// A hex digit in lower case: `A-F` become `a-f`, every other byte stays.
pub open spec fn lower_case(c: u8) -> u8 {
    if 0x41 <= c <= 0x46 {
        (c + 0x20) as u8
    } else {
        c
    }
}

/// A text with each of its hex digits in lower case.
pub open spec fn lower_cased(t: Seq<u8>) -> Seq<u8> {
    Seq::new(t.len(), |i: int| lower_case(t[i]))
}

#[verifier::external_type_specification]
#[verifier::external_body]
pub struct ExFromHexError(hex::FromHexError);

/// `hex::decode` on a byte slice. It succeeds exactly on an even number of
/// hex digits, upper or lower case, and then gives one byte per pair of
/// digits, the high digit first.
#[verifier::external_body]
fn decode_pairs(text: &[u8]) -> (res: Result<Vec<u8>, hex::FromHexError>)
    ensures
        res.is_ok() == (text@.len() % 2 == 0 && is_hex_text(text@)),
        res matches Ok(bytes) ==> bytes@ == pairs_value(text@),
{
    hex::decode(text)
}

/// `hex::encode`: two lower-case hex digits for each byte, in order.
#[verifier::external_body]
fn encode_pairs(data: &[u8]) -> (text: String)
    ensures
        text@ == hex_string(data@),
{
    hex::encode(data)
}

/// `bitcoin_hashes`' `FromHex::from_hex` for an array of four bytes, its
/// error dropped. On a text of eight hex digits, upper or lower case, it
/// gives one byte per pair of digits, the high digit first. On other texts
/// it may panic (it takes two characters at a time before it looks at
/// either), so it is called on eight hex digits only.
#[verifier::external_body]
pub(crate) fn decode_four(s: &str) -> (res: Option<[u8; 4]>)
    requires
        s.spec_bytes().len() == 8,
        is_hex_text(s.spec_bytes()),
    ensures
        res.is_some(),
        res matches Some(bytes) ==> bytes@ == pairs_value(s.spec_bytes()),
{
    let parsed: Result<[u8; 4], bitcoin_hashes::Error> = bitcoin_hashes::hex::FromHex::from_hex(s);
    match parsed {
        Ok(bytes) => Some(bytes),
        Err(_) => None,
    }
}

/// `bitcoin_hashes`' `ToHex::to_hex` on four bytes: two lower-case hex
/// digits for each byte, in order.
#[verifier::external_body]
pub(crate) fn encode_four(bytes: [u8; 4]) -> (text: String)
    ensures
        text@ == hex_string(bytes@),
{
    bitcoin_hashes::hex::ToHex::to_hex(&bytes[..])
}

/// Looks for the first byte of `text` that is no hex digit.
pub(crate) fn first_non_hex(text: &[u8]) -> (found: Option<usize>)
    ensures
        found is None <==> is_hex_text(text@),
        found matches Some(p) ==> is_first_non_hex(text@, p as int),
{
    let mut i: usize = 0;
    while i < text.len()
        invariant
            i <= text.len(),
            forall|j: int| 0 <= j < i ==> is_hex_digit(#[trigger] text@[j]),
        decreases text.len() - i,
    {
        let c: u8 = text[i];
        let digit = (0x30 <= c && c <= 0x39) || (0x41 <= c && c <= 0x46) || (0x61 <= c && c
            <= 0x66);
        if !digit {
            return Some(i);
        }
        i += 1;
    }
    None
}

/// Decodes hex text of any length: a text with an odd number of digits
/// is read as if a `0` stood in front of it.
pub fn hex_decode(s: &str) -> (res: Result<Vec<u8>, Error>)
    ensures
        viewed(res) == hex_parse(s.spec_bytes()),
{
    let text = s.as_bytes();
    let decoded = if text.len() % 2 != 0 {
        let mut whole: Vec<u8> = Vec::new();
        whole.push(0x30u8);
        let mut i: usize = 0;
        while i < text.len()
            invariant
                i <= text.len(),
                whole@ == seq![0x30u8] + text@.subrange(0, i as int),
            decreases text.len() - i,
        {
            whole.push(text[i]);
            i += 1;
        }
        assert(text@.subrange(0, text.len() as int) == text@);
        proof {
            lemma_padded_is_hex(text@);
        }
        decode_pairs(whole.as_slice())
    } else {
        decode_pairs(text)
    };
    match decoded {
        Ok(bytes) => Ok(bytes),
        Err(_) => {
            let position = match first_non_hex(text) {
                Some(position) => position,
                // not reached: a text of hex digits was decoded above
                None => 0,
            };
            proof {
                lemma_first_non_hex_is_unique(text@, position as int);
            }
            Err(Error::CodecHex { position })
        },
    }
}

/// A text is made of hex digits exactly when it is so with a `0` in front.
proof fn lemma_padded_is_hex(t: Seq<u8>)
    ensures
        is_hex_text(seq![0x30u8] + t) == is_hex_text(t),
{
    let whole = seq![0x30u8] + t;
    if is_hex_text(t) {
        assert forall|i: int| 0 <= i < whole.len() implies is_hex_digit(#[trigger] whole[i]) by {
            if i > 0 {
                assert(whole[i] == t[i - 1]);
            }
        }
    }
    if is_hex_text(whole) {
        assert forall|i: int| 0 <= i < t.len() implies is_hex_digit(#[trigger] t[i]) by {
            assert(whole[i + 1] == t[i]);
        }
    }
}

/// Encodes bytes as lower-case hex text.
pub fn hex_encode(data: &[u8]) -> (text: String)
    ensures
        text@ == hex_string(data@),
{
    encode_pairs(data)
}

/// The hex text of any bytes has two hex digits for each byte, and decodes
/// to those bytes again.
pub proof fn lemma_decode_of_encode(b: Seq<u8>)
    ensures
        hex_text(b).len() == 2 * b.len(),
        is_hex_text(hex_text(b)),
        lower_cased(hex_text(b)) == hex_text(b),
        hex_parse(hex_text(b)) == Ok::<Seq<u8>, Error>(b),
{
    let t = hex_text(b);
    assert forall|i: int| 0 <= i < t.len() implies is_hex_digit(#[trigger] t[i]) && lower_case(
        t[i],
    ) == t[i] by {
        let byte = b[i / 2];
        assert(byte / 16 < 16 && byte % 16 < 16);
    }
    assert(lower_cased(t) =~= t);
    assert(padded(t) == t);
    assert forall|i: int| 0 <= i < b.len() implies pairs_value(t)[i] == b[i] by {
        let byte = b[i];
        assert((2 * i) / 2 == i && (2 * i + 1) / 2 == i);
        assert(t[2 * i] == digit_of(byte / 16));
        assert(t[2 * i + 1] == digit_of(byte % 16));
        assert(digit_value(digit_of(byte / 16)) == byte / 16);
        assert(digit_value(digit_of(byte % 16)) == byte % 16);
    }
    assert(pairs_value(t) =~= b);
}

/// The hex text of any bytes is made of ASCII characters, so the bytes of
/// the string are the digits themselves.
pub proof fn lemma_hex_string_bytes(b: Seq<u8>)
    ensures
        vstd::utf8::encode_utf8(hex_string(b)) == hex_text(b),
{
    let chars = hex_string(b);
    let t = hex_text(b);
    assert forall|i: int| 0 <= i < chars.len() implies '\0' <= #[trigger] chars[i] <= '\u{7f}'
        && chars[i] as u8 == t[i] by {
        let byte = b[i / 2];
        assert(byte / 16 < 16 && byte % 16 < 16);
        assert(t[i] < 0x80);
    }
    assert(vstd::utf8::is_ascii_chars(chars));
    vstd::utf8::is_ascii_chars_encode_utf8(chars);
    assert(vstd::utf8::encode_utf8(chars) =~= t);
}

/// Hex text of any length decodes, an odd number of digits as if a `0` stood
/// in front. Encoding the outcome gives the text back in lower case, with
/// that `0` in front where the length was odd: at most one character more.
pub proof fn lemma_encode_of_decode(t: Seq<u8>)
    requires
        is_hex_text(t),
    ensures
        hex_parse(t) == Ok::<Seq<u8>, Error>(hex_value(t)),
        hex_text(hex_value(t)) == lower_cased(padded(t)),
        hex_text(hex_value(t)).len() == t.len() + t.len() % 2,
        t.len() % 2 == 1 ==> hex_value(t) == hex_value(seq![0x30u8] + t),
{
    let whole = padded(t);
    let v = hex_value(t);
    assert(whole.len() % 2 == 0);
    assert forall|i: int| 0 <= i < whole.len() implies is_hex_digit(#[trigger] whole[i]) by {
        if t.len() % 2 == 1 && i > 0 {
            assert(whole[i] == t[i - 1]);
        }
    }
    assert forall|k: int| 0 <= k < whole.len() implies hex_text(v)[k] == lower_case(
        whole[k],
    ) by {
        let j = k / 2;
        let high = whole[2 * j];
        let low = whole[2 * j + 1];
        assert(is_hex_digit(high) && is_hex_digit(low));
        assert(0 <= digit_value(high) < 16 && 0 <= digit_value(low) < 16);
        let byte = v[j];
        assert(byte == digit_value(high) * 16 + digit_value(low));
        assert(byte / 16 == digit_value(high));
        assert(byte % 16 == digit_value(low));
        assert(digit_of(digit_value(high) as u8) == lower_case(high));
        assert(digit_of(digit_value(low) as u8) == lower_case(low));
    }
    assert(hex_text(v) =~= lower_cased(whole));
    if t.len() % 2 == 1 {
        assert(padded(seq![0x30u8] + t) == seq![0x30u8] + t);
    }
}

} // verus!
