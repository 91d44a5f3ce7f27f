//! Four-byte words in big-endian and little-endian order, and the byte
//! permutation that turns a run of words from one order into the other.

use byteorder::{BigEndian, ByteOrder, LittleEndian};
use vstd::prelude::*;
use vstd::slice::slice_subrange;

verus! {

/// The number whose big-endian form is the first four bytes of `s`.
pub open spec fn be_word(s: Seq<u8>) -> int
    recommends
        s.len() >= 4,
{
    s[0] * 0x100_0000 + s[1] * 0x1_0000 + s[2] * 0x100 + s[3]
}

/// The number whose little-endian form is the first four bytes of `s`.
pub open spec fn le_word(s: Seq<u8>) -> int
    recommends
        s.len() >= 4,
{
    s[3] * 0x100_0000 + s[2] * 0x1_0000 + s[1] * 0x100 + s[0]
}

/// The four bytes of `w`, most significant first.
pub open spec fn be_bytes(w: u32) -> Seq<u8> {
    seq![
        (w / 0x100_0000) as u8,
        (w / 0x1_0000 % 0x100) as u8,
        (w / 0x100 % 0x100) as u8,
        (w % 0x100) as u8,
    ]
}

/// The four bytes of `w`, least significant first.
pub open spec fn le_bytes(w: u32) -> Seq<u8> {
    seq![
        (w % 0x100) as u8,
        (w / 0x100 % 0x100) as u8,
        (w / 0x1_0000 % 0x100) as u8,
        (w / 0x100_0000) as u8,
    ]
}

/// `s` with the bytes of each four-byte word in reverse order; the words
/// themselves keep their places.
pub open spec fn word_swapped(s: Seq<u8>) -> Seq<u8> {
    Seq::new(s.len(), |i: int| s[i - i % 4 + (3 - i % 4)])
}

/// `byteorder`'s `BigEndian::read_u32`: the first four bytes of `buf` read
/// as a big-endian number. It panics on fewer than four bytes.
#[verifier::external_body]
fn read_u32_be(buf: &[u8]) -> (w: u32)
    requires
        buf@.len() >= 4,
    ensures
        w == be_word(buf@),
{
    BigEndian::read_u32(buf)
}

/// `byteorder`'s `LittleEndian::read_u32`: the first four bytes of `buf`
/// read as a little-endian number. It panics on fewer than four bytes.
#[verifier::external_body]
fn read_u32_le(buf: &[u8]) -> (w: u32)
    requires
        buf@.len() >= 4,
    ensures
        w == le_word(buf@),
{
    LittleEndian::read_u32(buf)
}

/// `byteorder`'s `BigEndian::write_u32` into a buffer of four bytes: the
/// bytes of `w`, most significant first.
#[verifier::external_body]
fn write_u32_be(w: u32) -> (out: [u8; 4])
    ensures
        out@ == be_bytes(w),
{
    let mut out = [0u8; 4];
    BigEndian::write_u32(&mut out, w);
    out
}

/// `byteorder`'s `LittleEndian::write_u32` into a buffer of four bytes: the
/// bytes of `w`, least significant first.
#[verifier::external_body]
fn write_u32_le(w: u32) -> (out: [u8; 4])
    ensures
        out@ == le_bytes(w),
{
    let mut out = [0u8; 4];
    LittleEndian::write_u32(&mut out, w);
    out
}

/// The number that four bytes stand for, most significant first.
pub(crate) fn word_from_be(b: [u8; 4]) -> (w: u32)
    ensures
        w == be_word(b@),
{
    let b0: u32 = b[0] as u32;
    let b1: u32 = b[1] as u32;
    let b2: u32 = b[2] as u32;
    let b3: u32 = b[3] as u32;
    b0 * 0x100_0000 + b1 * 0x1_0000 + b2 * 0x100 + b3
}

/// The four bytes of a number, most significant first.
pub(crate) fn word_to_be(w: u32) -> (b: [u8; 4])
    ensures
        b@ == be_bytes(w),
{
    let b = [
        (w / 0x100_0000) as u8,
        (w / 0x1_0000 % 0x100) as u8,
        (w / 0x100 % 0x100) as u8,
        (w % 0x100) as u8,
    ];
    assert(b@ =~= be_bytes(w));
    b
}

/// The four bytes of a number, least significant first.
pub(crate) fn word_to_le(w: u32) -> (b: [u8; 4])
    ensures
        b@ == le_bytes(w),
{
    let b = [
        (w % 0x100) as u8,
        (w / 0x100 % 0x100) as u8,
        (w / 0x1_0000 % 0x100) as u8,
        (w / 0x100_0000) as u8,
    ];
    assert(b@ =~= le_bytes(w));
    b
}

/// The big-endian bytes of a word stand for that word.
pub proof fn lemma_be_word_of_be_bytes(w: u32)
    ensures
        be_word(be_bytes(w)) == w,
        le_word(le_bytes(w)) == w,
{
    let b0: u32 = w / 0x100_0000;
    let b1: u32 = w / 0x1_0000 % 0x100;
    let b2: u32 = w / 0x100 % 0x100;
    let b3: u32 = w % 0x100;
    assert(b0 < 0x100 && b1 < 0x100 && b2 < 0x100 && b3 < 0x100 && b0 * 0x100_0000 + b1
        * 0x1_0000 + b2 * 0x100 + b3 == w) by (bit_vector)
        requires
            b0 == w / 0x100_0000,
            b1 == w / 0x1_0000 % 0x100,
            b2 == w / 0x100 % 0x100,
            b3 == w % 0x100,
    ;
    assert(be_bytes(w)[0] == b0 && be_bytes(w)[1] == b1 && be_bytes(w)[2] == b2 && be_bytes(
        w,
    )[3] == b3);
    assert(le_bytes(w)[3] == b0 && le_bytes(w)[2] == b1 && le_bytes(w)[1] == b2 && le_bytes(
        w,
    )[0] == b3);
}

/// Reading a word big-endian and writing it little-endian reverses its bytes.
proof fn lemma_be_then_le(s: Seq<u8>)
    requires
        s.len() >= 4,
    ensures
        0 <= be_word(s) <= u32::MAX,
        le_bytes(be_word(s) as u32) == seq![s[3], s[2], s[1], s[0]],
{
    let w = be_word(s);
    assert(w % 0x100 == s[3] as int);
    assert(w / 0x100 % 0x100 == s[2] as int);
    assert(w / 0x1_0000 % 0x100 == s[1] as int);
    assert(w / 0x100_0000 == s[0] as int);
}

/// Reading a word little-endian and writing it big-endian reverses its bytes.
proof fn lemma_le_then_be(s: Seq<u8>)
    requires
        s.len() >= 4,
    ensures
        0 <= le_word(s) <= u32::MAX,
        be_bytes(le_word(s) as u32) == seq![s[3], s[2], s[1], s[0]],
{
    let w = le_word(s);
    assert(w % 0x100 == s[0] as int);
    assert(w / 0x100 % 0x100 == s[1] as int);
    assert(w / 0x1_0000 % 0x100 == s[2] as int);
    assert(w / 0x100_0000 == s[3] as int);
}

/// Reads each four-byte word of `bytes` as big-endian and writes it back as
/// little-endian.
pub(crate) fn words_be_to_le(bytes: &[u8]) -> (out: Vec<u8>)
    requires
        bytes@.len() % 4 == 0,
    ensures
        out@ == word_swapped(bytes@),
{
    let mut out: Vec<u8> = Vec::new();
    let mut i: usize = 0;
    while i < bytes.len()
        invariant
            bytes@.len() % 4 == 0,
            i % 4 == 0,
            i <= bytes@.len(),
            out@ == word_swapped(bytes@).subrange(0, i as int),
        decreases bytes@.len() - i,
    {
        let chunk = slice_subrange(bytes, i, i + 4);
        let word = read_u32_be(chunk);
        let turned = write_u32_le(word);
        proof {
            lemma_be_then_le(chunk@);
        }
        out.push(turned[0]);
        out.push(turned[1]);
        out.push(turned[2]);
        out.push(turned[3]);
        assert(out@ == word_swapped(bytes@).subrange(0, i + 4));
        i += 4;
    }
    out
}

/// Reads each four-byte word of `bytes` as little-endian and writes it back
/// as big-endian.
pub(crate) fn words_le_to_be(bytes: &[u8]) -> (out: Vec<u8>)
    requires
        bytes@.len() % 4 == 0,
    ensures
        out@ == word_swapped(bytes@),
{
    let mut out: Vec<u8> = Vec::new();
    let mut i: usize = 0;
    while i < bytes.len()
        invariant
            bytes@.len() % 4 == 0,
            i % 4 == 0,
            i <= bytes@.len(),
            out@ == word_swapped(bytes@).subrange(0, i as int),
        decreases bytes@.len() - i,
    {
        let chunk = slice_subrange(bytes, i, i + 4);
        let word = read_u32_le(chunk);
        let turned = write_u32_be(word);
        proof {
            lemma_le_then_be(chunk@);
        }
        out.push(turned[0]);
        out.push(turned[1]);
        out.push(turned[2]);
        out.push(turned[3]);
        assert(out@ == word_swapped(bytes@).subrange(0, i + 4));
        i += 4;
    }
    out
}

/// Swapping the bytes of every word twice gives back the first sequence.
pub proof fn lemma_word_swapped_twice(s: Seq<u8>)
    requires
        s.len() % 4 == 0,
    ensures
        word_swapped(word_swapped(s)) == s,
{
    assert forall|i: int| 0 <= i < s.len() implies word_swapped(word_swapped(s))[i] == s[i] by {
        let j = i - i % 4 + (3 - i % 4);
        assert(0 <= j < s.len());
        assert(j % 4 == 3 - i % 4);
    }
}

/// `s` with its four-byte words in reverse order, each word as it was.
pub open spec fn words_reversed(s: Seq<u8>) -> Seq<u8> {
    Seq::new(s.len(), |i: int| s[s.len() - 4 - (i - i % 4) + i % 4])
}

/// Reversing a whole sequence is more than swapping within its words: it
/// also puts the words in reverse order.
pub proof fn lemma_reverse_by_words(s: Seq<u8>)
    requires
        s.len() % 4 == 0,
    ensures
        s.reverse() == word_swapped(words_reversed(s)),
{
    let n = s.len() as int;
    let r = words_reversed(s);
    assert forall|i: int| 0 <= i < n implies s.reverse()[i] == word_swapped(r)[i] by {
        let j = i - i % 4 + (3 - i % 4);
        assert(0 <= j < n);
        assert(j % 4 == 3 - i % 4);
        assert(word_swapped(r)[i] == r[j]);
        assert(r[j] == s[n - 4 - (j - j % 4) + j % 4]);
    }
    assert(s.reverse() =~= word_swapped(r));
}

/// Swapping within words gives the reversed sequence only where the words
/// read the same in either order; on any other sequence the two differ.
pub proof fn lemma_word_swapped_is_not_reverse(s: Seq<u8>)
    requires
        s.len() % 4 == 0,
    ensures
        (word_swapped(s) == s.reverse()) == (s == words_reversed(s)),
{
    lemma_reverse_by_words(s);
    lemma_word_swapped_twice(s);
    lemma_word_swapped_twice(words_reversed(s));
}

/// On a sequence that holds, at some place, another byte than its words in
/// reverse order hold there, swapping within words and reversing the whole
/// give different outcomes.
pub proof fn lemma_word_swapped_differs_from_reverse(s: Seq<u8>, i: int)
    requires
        s.len() % 4 == 0,
        0 <= i < s.len(),
        s[i] != words_reversed(s)[i],
    ensures
        word_swapped(s) != s.reverse(),
{
    lemma_word_swapped_is_not_reverse(s);
}

} // verus!
