//! The template that a template provider offers for the next block.

use quickcheck::{Arbitrary, Gen};
use vstd::prelude::*;

use crate::binary::{Seq0255, B0255, B064K, U256, U256_LEN};
use crate::hex_codec::{digit_of, digit_value, hex_text};

verus! {

/// The number that the bytes of `s` stand for, least significant byte first.
pub open spec fn le_value(s: Seq<u8>) -> nat
    decreases s.len(),
{
    if s.len() == 0 {
        0
    } else {
        s[0] as nat + 256 * le_value(s.drop_first())
    }
}

/// The block height that a coinbase prefix holds.
///
/// The bytes of the prefix are written as two hex digits each, last byte
/// first; where the pair that comes from the first byte begins with `0`,
/// that one digit is dropped; the digits are then read as one number in
/// base 16. So the first byte counts for one digit where it is below 16 and
/// for two digits otherwise, under the bytes after it, which are read least
/// significant first (`lemma_height_by_digits` shows that the two accounts
/// agree). An empty prefix holds the height 0.
pub open spec fn height_of(prefix: Seq<u8>) -> nat {
    if prefix.len() == 0 {
        0
    } else if prefix[0] < 16 {
        le_value(prefix.drop_first()) * 16 + prefix[0] as nat
    } else {
        le_value(prefix.drop_first()) * 256 + prefix[0] as nat
    }
}

/// The bytes that a template takes on the wire: 38 bytes of fields of fixed
/// size; the coinbase prefix behind one byte of length; the coinbase outputs
/// behind two; the nodes of the merkle path, of 32 bytes each, behind one.
pub open spec fn wire_size(prefix_len: nat, outputs_len: nat, path_len: nat) -> nat {
    8 + 1 + 4 + 4 + (1 + prefix_len) + 4 + 8 + 4 + (2 + outputs_len) + 4 + (1 + 32 * path_len)
}

/// A template for the next block, as the template provider sends it.
#[derive(Debug, Clone, PartialEq)]
pub struct NewTemplate {
    /// The provider's name for the template; later templates have larger
    /// ones.
    pub template_id: u64,
    /// Whether the template waits for a previous-block hash that is yet to
    /// be announced, or belongs to the last one announced.
    pub future_template: bool,
    /// The version field of the block header.
    pub version: u32,
    /// The version field of the coinbase transaction.
    pub coinbase_tx_version: u32,
    /// The bytes that open the script of the coinbase input; they hold the
    /// block height.
    pub coinbase_prefix: B0255,
    /// The sequence field of the coinbase input.
    pub coinbase_tx_input_sequence: u32,
    /// What the outputs that a client adds may spend.
    pub coinbase_tx_value_remaining: u64,
    /// The number of outputs in `coinbase_tx_outputs`.
    pub coinbase_tx_outputs_count: u32,
    /// The outputs that close the coinbase transaction.
    pub coinbase_tx_outputs: B064K,
    /// The lock time of the coinbase transaction.
    pub coinbase_tx_locktime: u32,
    /// The merkle path, deepest node first.
    pub merkle_path: Seq0255<U256>,
}

#[verifier::external_type_specification]
#[verifier::external_body]
pub struct ExGen(Gen);

/// `quickcheck`'s `u8::arbitrary`: a number drawn from the generator. Which
/// one is left open.
#[verifier::external_body]
fn draw_u8(g: &mut Gen) -> (drawn: u8) {
    u8::arbitrary(g)
}

/// `quickcheck`'s `u32::arbitrary`: a number drawn from the generator. Which
/// one is left open.
#[verifier::external_body]
fn draw_u32(g: &mut Gen) -> (drawn: u32) {
    u32::arbitrary(g)
}

/// `quickcheck`'s `u64::arbitrary`: a number drawn from the generator. Which
/// one is left open.
#[verifier::external_body]
fn draw_u64(g: &mut Gen) -> (drawn: u64) {
    u64::arbitrary(g)
}

/// `quickcheck`'s `bool::arbitrary`: a truth value drawn from the generator.
/// Which one is left open.
#[verifier::external_body]
fn draw_bool(g: &mut Gen) -> (drawn: bool) {
    bool::arbitrary(g)
}

/// Draws `len` bytes from the generator.
fn draw_bytes(g: &mut Gen, len: usize) -> (bytes: Vec<u8>)
    ensures
        bytes@.len() == len,
{
    let mut bytes: Vec<u8> = Vec::new();
    let mut i: usize = 0;
    while i < len
        invariant
            i <= len,
            bytes@.len() == i,
        decreases len - i,
    {
        bytes.push(draw_u8(g));
        i += 1;
    }
    bytes
}

/// The version of the coinbase transaction that a drawn number stands for:
/// 1 for an even number, 2 for an odd one.
pub open spec fn drawn_tx_version(drawn: u32) -> u32 {
    (drawn % 2 + 1) as u32
}

/// The length of the coinbase prefix that a drawn byte stands for. With
/// version 1 it is the byte itself. With version 2 it is four more, so that
/// the prefix has room for a height; where four more would pass 255, it is
/// four.
pub open spec fn drawn_prefix_len(version: u32, drawn: u8) -> nat {
    if version == 1 {
        drawn as nat
    } else if drawn <= 251 {
        (drawn + 4) as nat
    } else {
        4
    }
}

/// The identifier that a drawn number stands for: the number itself, but 0
/// for the largest number there is.
pub open spec fn drawn_template_id(drawn: u64) -> u64 {
    (drawn % u64::MAX) as u64
}

/// Turns a drawn number into the version of a coinbase transaction.
pub fn coinbase_tx_version_for(drawn: u32) -> (version: u32)
    ensures
        version == drawn_tx_version(drawn),
        version == 1 || version == 2,
{
    (drawn % 2) + 1
}

/// Turns a drawn byte into the length of a coinbase prefix, for a coinbase
/// transaction of version 1 or 2.
pub fn coinbase_prefix_len_for(version: u32, drawn: u8) -> (len: usize)
    requires
        version == 1 || version == 2,
    ensures
        len == drawn_prefix_len(version, drawn),
        len <= 255,
        version == 2 ==> len >= 4,
{
    if version == 1 {
        drawn as usize
    } else if drawn <= u8::MAX - 4 {
        (drawn + 4) as usize
    } else {
        4
    }
}

/// Turns a drawn number into the identifier of a template.
pub fn template_id_for(drawn: u64) -> (template_id: u64)
    ensures
        template_id == drawn_template_id(drawn),
        template_id < u64::MAX,
{
    drawn % u64::MAX
}

impl NewTemplate {
    /// A template drawn from a generator of test values. What is drawn is
    /// open; `coinbase_tx_version_for`, `coinbase_prefix_len_for` and
    /// `template_id_for` say what each drawn number gives. Whatever is drawn,
    /// the coinbase transaction has version 1 or 2, and with version 2 a
    /// prefix of four bytes at least; the template brings no outputs of its
    /// own; and its identifier is not the largest there is.
    pub fn arbitrary(g: &mut Gen) -> (template: NewTemplate)
        ensures
            template.coinbase_tx_version == 1 || template.coinbase_tx_version == 2,
            template.coinbase_tx_version == 2 ==> template.coinbase_prefix@.len() >= 4,
            template.coinbase_tx_outputs_count == 0,
            template.coinbase_tx_outputs@.len() == 0,
            template.template_id < u64::MAX,
    {
        let coinbase_tx_version = coinbase_tx_version_for(draw_u32(g));
        let coinbase_prefix_len = coinbase_prefix_len_for(coinbase_tx_version, draw_u8(g));
        let coinbase_prefix = B0255::from_bytes(draw_bytes(g, coinbase_prefix_len)).unwrap();
        let mut merkle_path: Vec<U256> = Vec::new();
        let merkle_path_len = draw_u8(g);
        let mut i: u8 = 0;
        while i < merkle_path_len
            invariant
                i <= merkle_path_len,
                merkle_path@.len() == i,
            decreases merkle_path_len - i,
        {
            let path = draw_bytes(g, U256_LEN);
            merkle_path.push(U256::from_bytes(path).unwrap());
            i += 1;
        }
        let merkle_path = Seq0255::new(merkle_path).unwrap();
        let template_id = template_id_for(draw_u64(g));
        let future_template = draw_bool(g);
        let version = draw_u32(g);
        let coinbase_tx_input_sequence = draw_u32(g);
        let coinbase_tx_value_remaining = draw_u64(g);
        let coinbase_tx_locktime = draw_u32(g);
        NewTemplate {
            template_id,
            future_template,
            version,
            coinbase_tx_version,
            coinbase_prefix,
            coinbase_tx_input_sequence,
            coinbase_tx_value_remaining,
            coinbase_tx_outputs_count: 0,
            coinbase_tx_outputs: B064K::from_bytes(Vec::new()).unwrap(),
            coinbase_tx_locktime,
            merkle_path,
        }
    }

    /// The block height that the coinbase prefix holds, where it fits in 32
    /// bits.
    pub fn checked_height(&self) -> (height: Option<u32>)
        ensures
            height == if height_of(self.coinbase_prefix@) <= u32::MAX {
                Some(height_of(self.coinbase_prefix@) as u32)
            } else {
                None
            },
    {
        let bytes = self.coinbase_prefix.inner_as_ref();
        let n = bytes.len();
        if n == 0 {
            return Some(0);
        }
        let ghost prefix = bytes@;
        let ghost rest = prefix.drop_first();
        let mut above: u64 = 0;
        let mut i: usize = n;
        assert(prefix.subrange(n as int, n as int) =~= Seq::<u8>::empty());
        while i > 1
            invariant
                1 <= i <= n,
                n == prefix.len(),
                prefix == bytes@,
                prefix == self.coinbase_prefix@,
                rest == prefix.drop_first(),
                above == le_value(prefix.subrange(i as int, n as int)),
                above <= u32::MAX,
            decreases i,
        {
            i -= 1;
            proof {
                let tail = prefix.subrange(i as int, n as int);
                assert(tail.drop_first() =~= prefix.subrange(i + 1, n as int));
                assert(tail =~= rest.subrange(i - 1, rest.len() as int));
                lemma_le_value_of_tail(rest, i - 1);
            }
            above = above * 256 + bytes[i] as u64;
            if above > u32::MAX as u64 {
                return None;
            }
        }
        assert(prefix.subrange(1, n as int) =~= rest);
        let first = bytes[0];
        let total: u64 = if first < 16 {
            above * 16 + first as u64
        } else {
            above * 256 + first as u64
        };
        if total > u32::MAX as u64 {
            None
        } else {
            Some(total as u32)
        }
    }

    /// The block height that the coinbase prefix holds.
    pub fn get_height(&self) -> (height: u32)
        requires
            height_of(self.coinbase_prefix@) <= u32::MAX,
        ensures
            height == height_of(self.coinbase_prefix@),
    {
        self.checked_height().unwrap()
    }

    /// The number of bytes that the template takes on the wire.
    pub fn get_size(&self) -> (size: usize)
        ensures
            size == wire_size(
                self.coinbase_prefix@.len(),
                self.coinbase_tx_outputs@.len(),
                self.merkle_path@.len(),
            ),
    {
        8 + 1 + 4 + 4 + self.coinbase_prefix.get_size() + 4 + 8 + 4
            + self.coinbase_tx_outputs.get_size() + 4 + self.merkle_path.get_size()
    }
}

/// What the last bytes of a sequence stand for is no more than what the
/// whole sequence stands for.
proof fn lemma_le_value_of_tail(s: Seq<u8>, k: int)
    requires
        0 <= k <= s.len(),
    ensures
        le_value(s.subrange(k, s.len() as int)) <= le_value(s),
    decreases k,
{
    if k == 0 {
        assert(s.subrange(0, s.len() as int) =~= s);
    } else {
        let rest = s.drop_first();
        assert(rest.subrange(k - 1, rest.len() as int) =~= s.subrange(k, s.len() as int));
        lemma_le_value_of_tail(rest, k - 1);
    }
}

/// The number that the bytes of `s` stand for, most significant byte first.
pub open spec fn be_value(s: Seq<u8>) -> nat
    decreases s.len(),
{
    if s.len() == 0 {
        0
    } else {
        be_value(s.drop_last()) * 256 + s.last() as nat
    }
}

/// The number that hex digits stand for, the most significant digit first.
pub open spec fn base16(digits: Seq<u8>) -> nat
    decreases digits.len(),
{
    if digits.len() == 0 {
        0
    } else {
        base16(digits.drop_last()) * 16 + digit_value(digits.last()) as nat
    }
}

/// The hex digits that the height is read from: two digits for each byte of
/// the prefix, the last byte first; where the pair that comes from the first
/// byte begins with `0`, without that one digit.
pub open spec fn height_digits(prefix: Seq<u8>) -> Seq<u8> {
    let pairs = hex_text(prefix.reverse());
    if prefix.len() > 0 && pairs[pairs.len() - 2] == 0x30 {
        pairs.remove(pairs.len() - 2)
    } else {
        pairs
    }
}

/// The height that a prefix holds is the number that its digits stand for
/// in base 16.
pub proof fn lemma_height_by_digits(prefix: Seq<u8>)
    ensures
        base16(height_digits(prefix)) == height_of(prefix),
{
    let turned = prefix.reverse();
    let pairs = hex_text(turned);
    if prefix.len() == 0 {
        assert(pairs =~= Seq::<u8>::empty());
    } else {
        let n = prefix.len() as int;
        let first = prefix[0];
        let above = turned.drop_last();
        assert(turned.last() == first);
        assert(above =~= prefix.drop_first().reverse());
        lemma_be_of_reverse(prefix.drop_first());
        lemma_base16_of_hex_text(above);
        assert(first / 16 < 16 && first % 16 < 16);
        assert(pairs[2 * n - 2] == digit_of(first / 16));
        assert(pairs[2 * n - 1] == digit_of(first % 16));
        assert(digit_value(digit_of(first / 16)) == first / 16);
        assert(digit_value(digit_of(first % 16)) == first % 16);
        assert(pairs.drop_last().drop_last() =~= hex_text(above));
        if pairs[2 * n - 2] == 0x30 {
            assert(first < 16);
            let digits = pairs.remove(2 * n - 2);
            assert(digits.drop_last() =~= hex_text(above));
            assert(digits.last() == digit_of(first % 16));
        } else {
            assert(first >= 16);
            assert(pairs.drop_last().last() == digit_of(first / 16));
            assert(base16(pairs.drop_last()) == base16(hex_text(above)) * 16 + first / 16);
            assert(base16(pairs) == base16(pairs.drop_last()) * 16 + first % 16);
        }
    }
}

/// The hex text of bytes, read in base 16, is the number that the bytes
/// stand for, most significant first.
proof fn lemma_base16_of_hex_text(b: Seq<u8>)
    ensures
        base16(hex_text(b)) == be_value(b),
    decreases b.len(),
{
    let pairs = hex_text(b);
    if b.len() == 0 {
        assert(pairs =~= Seq::<u8>::empty());
    } else {
        let n = b.len() as int;
        let last = b.last();
        lemma_base16_of_hex_text(b.drop_last());
        assert(last / 16 < 16 && last % 16 < 16);
        assert(pairs[2 * n - 2] == digit_of(last / 16));
        assert(pairs[2 * n - 1] == digit_of(last % 16));
        assert(digit_value(digit_of(last / 16)) == last / 16);
        assert(digit_value(digit_of(last % 16)) == last % 16);
        assert(pairs.drop_last().drop_last() =~= hex_text(b.drop_last()));
        assert(pairs.drop_last().last() == digit_of(last / 16));
        assert(base16(pairs.drop_last()) == base16(hex_text(b.drop_last())) * 16 + last / 16);
        assert(base16(pairs) == base16(pairs.drop_last()) * 16 + last % 16);
    }
}

/// Bytes read least significant first stand for the number that they stand
/// for in reverse order, read most significant first.
proof fn lemma_be_of_reverse(s: Seq<u8>)
    ensures
        be_value(s.reverse()) == le_value(s),
    decreases s.len(),
{
    if s.len() == 0 {
        assert(s.reverse() =~= Seq::<u8>::empty());
    } else {
        let turned = s.reverse();
        assert(turned.last() == s[0]);
        assert(turned.drop_last() =~= s.drop_first().reverse());
        lemma_be_of_reverse(s.drop_first());
    }
}

} // verus!
