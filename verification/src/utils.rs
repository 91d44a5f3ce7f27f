//! The values that legacy text carries in hex: the extranonce, the node of a
//! merkle path, the previous-block hash with its own byte order, bytes of
//! any length, and a 32-bit word.

use vstd::prelude::*;
use vstd::string::StringSliceAdditionalSpecFns;
use vstd::utf8::encode_utf8;

use crate::binary::{bounded, sized, B032, U256};
use crate::byte_order::{
    be_bytes, be_word, lemma_be_word_of_be_bytes, lemma_word_swapped_twice, word_from_be,
    word_swapped, word_to_be, words_be_to_le, words_le_to_be,
};
use crate::error::Error;
use crate::hex_codec::{
    decode_four, encode_four, first_non_hex, first_non_hex_position, hex_decode, hex_encode,
    hex_parse, hex_string, hex_value, is_hex_text, lemma_decode_of_encode,
    lemma_encode_of_decode, lemma_first_non_hex_is_unique, lemma_hex_string_bytes, lower_cased,
    pairs_value, viewed,
};

verus! {

/// The most bytes an extranonce holds.
pub const EXTRANONCE_MAX_LEN: usize = 32;

/// The number of bytes of a node of a merkle path.
pub const MERKLE_NODE_LEN: usize = 32;

/// The number of bytes of a previous-block hash.
pub const PREV_HASH_LEN: usize = 32;

/// The number of hex digits of a 32-bit word.
pub const WORD_HEX_LEN: usize = 8;

/// What reading a byte string of at most `max` bytes from the hex text `t`
/// gives.
pub open spec fn bounded_parse(t: Seq<u8>, max: usize) -> Result<Seq<u8>, Error> {
    match hex_parse(t) {
        Ok(b) => bounded(b, max),
        Err(e) => Err(e),
    }
}

/// What reading a byte string of exactly `size` bytes from the hex text `t`
/// gives.
pub open spec fn sized_parse(t: Seq<u8>, size: usize) -> Result<Seq<u8>, Error> {
    match hex_parse(t) {
        Ok(b) => sized(b, size),
        Err(e) => Err(e),
    }
}

/// What reading a previous-block hash from legacy text gives. Legacy text
/// writes the hash as eight words of four bytes, each word most significant
/// byte first; the hash itself holds each word least significant byte first.
pub open spec fn legacy_parse(t: Seq<u8>) -> Result<Seq<u8>, Error> {
    match sized_parse(t, PREV_HASH_LEN) {
        Ok(b) => Ok(word_swapped(b)),
        Err(e) => Err(e),
    }
}

/// The legacy text of a previous-block hash.
pub open spec fn legacy_string(hash: Seq<u8>) -> Seq<char> {
    hex_string(word_swapped(hash))
}

/// A miner's share of the nonce space: at most 32 bytes.
#[derive(Debug, PartialEq)]
pub struct Extranonce(pub B032);

impl View for Extranonce {
    type V = Seq<u8>;

    open spec fn view(&self) -> Seq<u8> {
        self.0@
    }
}

impl Clone for Extranonce {
    fn clone(&self) -> (res: Self)
        ensures
            res@ == self@,
    {
        Extranonce(self.0.clone())
    }
}

impl Extranonce {
    /// Takes the bytes as they are, unless there are more than 32.
    pub fn from_bytes(bytes: Vec<u8>) -> (res: Result<Extranonce, Error>)
        ensures
            viewed(res) == bounded(bytes@, EXTRANONCE_MAX_LEN),
    {
        match B032::from_bytes(bytes) {
            Ok(inner) => Ok(Extranonce(inner)),
            Err(e) => Err(e),
        }
    }

    /// Reads the bytes from hex text; an odd number of digits is read as if
    /// a `0` stood in front.
    pub fn from_hex(s: &str) -> (res: Result<Extranonce, Error>)
        ensures
            viewed(res) == bounded_parse(s.spec_bytes(), EXTRANONCE_MAX_LEN),
    {
        match hex_decode(s) {
            Ok(bytes) => Extranonce::from_bytes(bytes),
            Err(e) => Err(e),
        }
    }

    /// The bytes as lower-case hex text.
    pub fn to_hex(&self) -> (text: String)
        ensures
            text@ == hex_string(self@),
    {
        hex_encode(self.0.inner_as_ref())
    }

    /// A copy of the bytes.
    pub fn to_bytes(&self) -> (bytes: Vec<u8>)
        ensures
            bytes@ == self@,
            bytes@.len() <= EXTRANONCE_MAX_LEN,
    {
        self.0.to_vec()
    }

    /// The bytes, borrowed.
    pub fn as_ref(&self) -> (bytes: &[u8])
        ensures
            bytes@ == self@,
            bytes@.len() <= EXTRANONCE_MAX_LEN,
    {
        self.0.inner_as_ref()
    }

    pub fn len(&self) -> (n: usize)
        ensures
            n == self@.len(),
            n <= EXTRANONCE_MAX_LEN,
    {
        self.0.inner_as_ref().len()
    }

    pub fn is_empty(&self) -> (empty: bool)
        ensures
            empty == (self@.len() == 0),
    {
        self.0.inner_as_ref().len() == 0
    }
}

/// A hash on a merkle path: exactly 32 bytes.
#[derive(Debug, PartialEq)]
pub struct MerkleNode(pub U256);

impl View for MerkleNode {
    type V = Seq<u8>;

    open spec fn view(&self) -> Seq<u8> {
        self.0@
    }
}

impl Clone for MerkleNode {
    fn clone(&self) -> (res: Self)
        ensures
            res@ == self@,
    {
        MerkleNode(self.0.clone())
    }
}

impl MerkleNode {
    /// Takes the bytes as they are, if there are exactly 32.
    pub fn from_bytes(bytes: Vec<u8>) -> (res: Result<MerkleNode, Error>)
        ensures
            viewed(res) == sized(bytes@, MERKLE_NODE_LEN),
    {
        match U256::from_bytes(bytes) {
            Ok(inner) => Ok(MerkleNode(inner)),
            Err(e) => Err(e),
        }
    }

    /// Reads the bytes from hex text; an odd number of digits is read as if
    /// a `0` stood in front.
    pub fn from_hex(s: &str) -> (res: Result<MerkleNode, Error>)
        ensures
            viewed(res) == sized_parse(s.spec_bytes(), MERKLE_NODE_LEN),
    {
        match hex_decode(s) {
            Ok(bytes) => MerkleNode::from_bytes(bytes),
            Err(e) => Err(e),
        }
    }

    /// The bytes as lower-case hex text.
    pub fn to_hex(&self) -> (text: String)
        ensures
            text@ == hex_string(self@),
    {
        hex_encode(self.0.inner_as_ref())
    }

    /// A copy of the bytes.
    pub fn to_bytes(&self) -> (bytes: Vec<u8>)
        ensures
            bytes@ == self@,
            bytes@.len() == MERKLE_NODE_LEN,
    {
        self.0.to_vec()
    }

    /// The bytes, borrowed.
    pub fn as_ref(&self) -> (bytes: &[u8])
        ensures
            bytes@ == self@,
            bytes@.len() == MERKLE_NODE_LEN,
    {
        self.0.inner_as_ref()
    }

    pub fn len(&self) -> (n: usize)
        ensures
            n == self@.len(),
            n == MERKLE_NODE_LEN,
    {
        self.0.len()
    }

    pub fn is_empty(&self) -> (empty: bool)
        ensures
            empty == (self@.len() == 0),
            !empty,
    {
        self.0.inner_as_ref().len() == 0
    }
}

/// The hash of the block that new work builds on: exactly 32 bytes, held in
/// the byte order of the binary protocol.
#[derive(Debug, PartialEq)]
pub struct PrevHash(pub U256);

impl View for PrevHash {
    type V = Seq<u8>;

    open spec fn view(&self) -> Seq<u8> {
        self.0@
    }
}

impl Clone for PrevHash {
    fn clone(&self) -> (res: Self)
        ensures
            res@ == self@,
    {
        PrevHash(self.0.clone())
    }
}

impl PrevHash {
    /// Takes the bytes as they are, if there are exactly 32.
    pub fn from_bytes(bytes: Vec<u8>) -> (res: Result<PrevHash, Error>)
        ensures
            viewed(res) == sized(bytes@, PREV_HASH_LEN),
    {
        match U256::from_bytes(bytes) {
            Ok(inner) => Ok(PrevHash(inner)),
            Err(e) => Err(e),
        }
    }

    /// Reads the bytes from plain hex text, in the order the text gives them.
    pub fn from_hex(s: &str) -> (res: Result<PrevHash, Error>)
        ensures
            viewed(res) == sized_parse(s.spec_bytes(), PREV_HASH_LEN),
    {
        match hex_decode(s) {
            Ok(bytes) => PrevHash::from_bytes(bytes),
            Err(e) => Err(e),
        }
    }

    /// Reads the hash from legacy text: the text must stand for exactly 32
    /// bytes, and the bytes of each four-byte word are put in reverse order.
    pub fn from_legacy_hex(s: &str) -> (res: Result<PrevHash, Error>)
        ensures
            viewed(res) == legacy_parse(s.spec_bytes()),
    {
        match hex_decode(s) {
            Ok(bytes) => {
                if bytes.len() != PREV_HASH_LEN {
                    Err(Error::CodecLength { len: bytes.len(), max: PREV_HASH_LEN })
                } else {
                    PrevHash::from_bytes(words_be_to_le(bytes.as_slice()))
                }
            },
            Err(e) => Err(e),
        }
    }

    /// The hash as legacy text: the bytes of each four-byte word in reverse
    /// order, in lower-case hex.
    pub fn to_legacy_hex(&self) -> (text: String)
        ensures
            text@ == legacy_string(self@),
    {
        let turned = words_le_to_be(self.0.inner_as_ref());
        hex_encode(turned.as_slice())
    }

    /// The bytes as lower-case hex text, in the order they are held.
    pub fn to_hex(&self) -> (text: String)
        ensures
            text@ == hex_string(self@),
    {
        hex_encode(self.0.inner_as_ref())
    }

    /// A copy of the bytes.
    pub fn to_bytes(&self) -> (bytes: Vec<u8>)
        ensures
            bytes@ == self@,
            bytes@.len() == PREV_HASH_LEN,
    {
        self.0.to_vec()
    }

    /// The bytes, borrowed.
    pub fn as_ref(&self) -> (bytes: &[u8])
        ensures
            bytes@ == self@,
            bytes@.len() == PREV_HASH_LEN,
    {
        self.0.inner_as_ref()
    }

    pub fn len(&self) -> (n: usize)
        ensures
            n == self@.len(),
            n == PREV_HASH_LEN,
    {
        self.0.len()
    }

    pub fn is_empty(&self) -> (empty: bool)
        ensures
            empty == (self@.len() == 0),
            !empty,
    {
        self.0.inner_as_ref().len() == 0
    }
}

/// Bytes of any length that legacy text carries in hex.
#[derive(Debug, PartialEq)]
pub struct HexBytes(Vec<u8>);

impl View for HexBytes {
    type V = Seq<u8>;

    closed spec fn view(&self) -> Seq<u8> {
        self.0@
    }
}

impl Clone for HexBytes {
    fn clone(&self) -> (res: Self)
        ensures
            res@ == self@,
    {
        HexBytes(self.0.clone())
    }
}

impl HexBytes {
    /// Takes the bytes as they are.
    pub fn from_bytes(bytes: Vec<u8>) -> (res: HexBytes)
        ensures
            res@ == bytes@,
    {
        HexBytes(bytes)
    }

    /// Reads the bytes from hex text; an odd number of digits is read as if
    /// a `0` stood in front.
    pub fn from_hex(s: &str) -> (res: Result<HexBytes, Error>)
        ensures
            viewed(res) == hex_parse(s.spec_bytes()),
    {
        match hex_decode(s) {
            Ok(bytes) => Ok(HexBytes(bytes)),
            Err(e) => Err(e),
        }
    }

    /// The bytes as lower-case hex text.
    pub fn to_hex(&self) -> (text: String)
        ensures
            text@ == hex_string(self@),
    {
        hex_encode(self.0.as_slice())
    }

    /// A copy of the bytes.
    pub fn to_bytes(&self) -> (bytes: Vec<u8>)
        ensures
            bytes@ == self@,
    {
        self.0.clone()
    }

    /// The bytes, borrowed.
    pub fn as_ref(&self) -> (bytes: &Vec<u8>)
        ensures
            bytes@ == self@,
    {
        &self.0
    }

    pub fn len(&self) -> (n: usize)
        ensures
            n == self@.len(),
    {
        self.0.len()
    }

    pub fn is_empty(&self) -> (empty: bool)
        ensures
            empty == (self@.len() == 0),
    {
        self.0.len() == 0
    }
}

/// What reading a 32-bit word from the hex text `t` gives: the text must be
/// eight hex digits, the most significant first.
pub open spec fn word_parse(t: Seq<u8>) -> Result<u32, Error> {
    if t.len() != WORD_HEX_LEN {
        Err(Error::CodecLength { len: t.len() as usize, max: WORD_HEX_LEN })
    } else if !is_hex_text(t) {
        Err(Error::CodecHex { position: first_non_hex_position(t) as usize })
    } else {
        Ok(be_word(pairs_value(t)) as u32)
    }
}

/// The hex text of a 32-bit word: eight lower-case digits, the most
/// significant first.
pub open spec fn word_string(w: u32) -> Seq<char> {
    hex_string(be_bytes(w))
}

/// Bit `i` of `w` is set.
pub open spec fn bit_is_set(w: u32, i: u32) -> bool {
    (w >> i) & 1 == 1
}

/// A 32-bit word that legacy text carries as eight hex digits, the most
/// significant first.
#[derive(Debug, Clone, Copy, PartialEq, Eq, Structural)]
pub struct HexU32Be(pub u32);

impl HexU32Be {
    /// Whether every bit that `mask` asks for is set in this word.
    pub fn check_mask(&self, mask: &HexU32Be) -> (ok: bool)
        ensures
            ok == ((!self.0) & mask.0 == 0),
            ok == (self.0 & mask.0 == mask.0),
            ok == (forall|i: u32| i < 32 && bit_is_set(mask.0, i) ==> bit_is_set(self.0, i)),
    {
        let value: u32 = self.0;
        let wanted: u32 = mask.0;
        proof {
            lemma_mask_by_bits(value, wanted);
        }
        ((!value) & wanted) == 0
    }

    /// Reads the word from eight hex digits.
    pub fn from_hex(s: &str) -> (res: Result<HexU32Be, Error>)
        ensures
            match res {
                Ok(word) => word_parse(s.spec_bytes()) == Ok::<u32, Error>(word.0),
                Err(e) => word_parse(s.spec_bytes()) == Err::<u32, Error>(e),
            },
    {
        let text = s.as_bytes();
        if text.len() != WORD_HEX_LEN {
            return Err(Error::CodecLength { len: text.len(), max: WORD_HEX_LEN });
        }
        match first_non_hex(text) {
            Some(position) => {
                proof {
                    lemma_first_non_hex_is_unique(text@, position as int);
                }
                Err(Error::CodecHex { position })
            },
            None => match decode_four(s) {
                Some(bytes) => Ok(HexU32Be(word_from_be(bytes))),
                // not reached: the text is eight hex digits
                None => Err(Error::CodecHex { position: 0 }),
            },
        }
    }

    /// The word as eight lower-case hex digits.
    pub fn to_hex(&self) -> (text: String)
        ensures
            text@ == word_string(self.0),
    {
        encode_four(word_to_be(self.0))
    }
}

impl core::ops::BitAnd<u32> for HexU32Be {
    type Output = u32;

    /// The bits that this word and `rhs` share.
    fn bitand(self, rhs: u32) -> (bits: u32) {
        self.0 & rhs
    }
}

impl vstd::std_specs::ops::BitAndSpecImpl<u32> for HexU32Be {
    open spec fn obeys_bitand_spec() -> bool {
        true
    }

    open spec fn bitand_req(self, rhs: u32) -> bool {
        true
    }

    open spec fn bitand_spec(self, rhs: u32) -> u32 {
        self.0 & rhs
    }
}

/// A word lacks no bit of a mask exactly when each bit of the mask is a bit
/// of the word.
pub proof fn lemma_mask_by_bits(value: u32, mask: u32)
    ensures
        ((!value) & mask == 0) == (value & mask == mask),
        ((!value) & mask == 0) == (forall|i: u32|
            i < 32 && bit_is_set(mask, i) ==> bit_is_set(value, i)),
{
    assert(((!value) & mask == 0) == (value & mask == mask)) by (bit_vector);
    if (!value) & mask == 0 {
        assert forall|i: u32| i < 32 && bit_is_set(mask, i) implies bit_is_set(value, i) by {
            assert((!value) & mask == 0 && i < 32 && (mask >> i) & 1 == 1 ==> (value >> i) & 1
                == 1) by (bit_vector);
        }
    } else {
        let lacking: u32 = (!value) & mask;
        lemma_some_bit_is_set(lacking);
        let i = some_set_bit(lacking);
        assert(lacking != 0 && (lacking >> i) & 1 == 1 && i < 32 && lacking == (!value) & mask
            ==> (mask >> i) & 1 == 1 && (value >> i) & 1 != 1) by (bit_vector);
        assert(bit_is_set(mask, i) && !bit_is_set(value, i));
    }
}

/// The place of a bit that is set in a word that is not zero.
spec fn some_set_bit(w: u32) -> u32 {
    choose|i: u32| i < 32 && bit_is_set(w, i)
}

/// A word that is not zero has a bit set.
proof fn lemma_some_bit_is_set(w: u32)
    requires
        w != 0,
    ensures
        exists|i: u32| i < 32 && bit_is_set(w, i),
{
    assert(w >> 0u32 == w) by (bit_vector);
    lemma_some_bit_is_set_from(w, 0);
}

/// Where something is left of a word after its `i` lowest bits are dropped,
/// one of the other bits is set.
proof fn lemma_some_bit_is_set_from(w: u32, i: u32)
    requires
        i < 32,
        w >> i != 0,
    ensures
        exists|j: u32| j < 32 && bit_is_set(w, j),
    decreases 32 - i,
{
    let next: u32 = (i + 1) as u32;
    assert(i < 32 && next == i + 1 && w >> i != 0 ==> (w >> i) & 1 == 1 || (i < 31 && w >> next
        != 0)) by (bit_vector);
    if (w >> i) & 1 == 1 {
        assert(bit_is_set(w, i));
    } else {
        lemma_some_bit_is_set_from(w, next);
    }
}

/// A byte string built from bytes within its bound holds exactly those
/// bytes, so that the bytes it hands out are the bytes it was built from. A
/// hash takes 32 bytes and no fewer.
pub proof fn lemma_bytes_round_trip(b: Seq<u8>, max: usize)
    requires
        b.len() <= max,
    ensures
        bounded(b, max) == Ok::<Seq<u8>, Error>(b),
        b.len() == max ==> sized(b, max) == Ok::<Seq<u8>, Error>(b),
{
}

/// A byte string within its bound, written as hex and read again, is the
/// same byte string.
pub proof fn lemma_hex_round_trip(b: Seq<u8>, max: usize)
    requires
        b.len() <= max,
    ensures
        bounded_parse(encode_utf8(hex_string(b)), max) == Ok::<Seq<u8>, Error>(b),
        b.len() == max ==> sized_parse(encode_utf8(hex_string(b)), max) == Ok::<Seq<u8>, Error>(b),
{
    lemma_hex_string_bytes(b);
    lemma_decode_of_encode(b);
}

/// The hex text of any 32 bytes, read as the legacy text of a hash and
/// written as legacy text again, is the same text: the two changes of byte
/// order undo each other.
pub proof fn lemma_legacy_round_trip(seq: Seq<u8>)
    requires
        seq.len() == PREV_HASH_LEN,
    ensures
        legacy_parse(encode_utf8(hex_string(seq))) == Ok::<Seq<u8>, Error>(word_swapped(seq)),
        legacy_string(word_swapped(seq)) == hex_string(seq),
{
    lemma_hex_string_bytes(seq);
    lemma_decode_of_encode(seq);
    lemma_word_swapped_twice(seq);
}

/// A hash written as legacy text and read again is the same hash.
pub proof fn lemma_legacy_round_trip_of_hash(hash: Seq<u8>)
    requires
        hash.len() == PREV_HASH_LEN,
    ensures
        legacy_parse(encode_utf8(legacy_string(hash))) == Ok::<Seq<u8>, Error>(hash),
{
    lemma_hex_string_bytes(word_swapped(hash));
    lemma_decode_of_encode(word_swapped(hash));
    lemma_word_swapped_twice(hash);
}

/// Any text of 64 hex digits is the legacy text of a hash, and the legacy
/// text of that hash is the same text in lower case: the same text, where
/// it holds none of the digits `A-F`.
pub proof fn lemma_legacy_round_trip_of_text(t: Seq<u8>)
    requires
        is_hex_text(t),
        t.len() == 2 * PREV_HASH_LEN,
    ensures
        legacy_parse(t) == Ok::<Seq<u8>, Error>(word_swapped(hex_value(t))),
        encode_utf8(legacy_string(word_swapped(hex_value(t)))) == lower_cased(t),
        (forall|i: int| 0 <= i < t.len() ==> !(0x41 <= #[trigger] t[i] <= 0x46)) ==> lower_cased(t)
            == t,
{
    lemma_encode_of_decode(t);
    let value = hex_value(t);
    assert(value.len() == PREV_HASH_LEN);
    lemma_word_swapped_twice(value);
    lemma_hex_string_bytes(value);
    if forall|i: int| 0 <= i < t.len() ==> !(0x41 <= #[trigger] t[i] <= 0x46) {
        assert(lower_cased(t) =~= t);
    }
}

/// A word written as hex and read again is the same word.
pub proof fn lemma_word_round_trip(w: u32)
    ensures
        word_parse(encode_utf8(word_string(w))) == Ok::<u32, Error>(w),
{
    let b = be_bytes(w);
    lemma_hex_string_bytes(b);
    lemma_decode_of_encode(b);
    lemma_be_word_of_be_bytes(w);
}

} // verus!
