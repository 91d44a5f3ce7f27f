//! The coinbase transaction of a template, cut in two where the extranonce
//! goes: a legacy miner puts its extranonce between the two parts and hashes
//! the whole.

use vstd::prelude::*;

use crate::byte_order::{le_bytes, word_to_le};

verus! {

/// The number of bytes of the reference to the output that a coinbase input
/// spends: a hash of 32 zero bytes and an index of four bytes `0xff`.
pub const NULL_OUTPOINT_LEN: usize = 36;

/// A count in the variable-length form of transactions: one byte below
/// `0xfd`; else a marker byte and the count in two, four or eight bytes,
/// least significant first.
pub open spec fn compact_size(n: u64) -> Seq<u8> {
    if n < 0xfd {
        seq![n as u8]
    } else if n <= 0xffff {
        seq![0xfdu8, (n % 0x100) as u8, (n / 0x100) as u8]
    } else if n <= 0xffff_ffff {
        seq![0xfeu8] + le_bytes(n as u32)
    } else {
        seq![0xffu8] + le_bytes((n % 0x1_0000_0000) as u32) + le_bytes((n / 0x1_0000_0000) as u32)
    }
}

/// The reference to the output that a coinbase input spends: none.
pub open spec fn null_outpoint() -> Seq<u8> {
    Seq::new(NULL_OUTPOINT_LEN as nat, |i: int| if i < 32 { 0x00u8 } else { 0xffu8 })
}

/// The coinbase transaction up to the extranonce: the version, the count of
/// one input, the null reference, the length of the input's script (which is
/// the prefix and then an extranonce of `extranonce_len` bytes), and the
/// prefix.
pub open spec fn head_bytes(tx_version: u32, prefix: Seq<u8>, extranonce_len: nat) -> Seq<u8> {
    le_bytes(tx_version) + seq![0x01u8] + null_outpoint() + compact_size(
        (prefix.len() + extranonce_len) as u64,
    ) + prefix
}

/// The coinbase transaction after the extranonce: the sequence of the
/// input, the count of outputs, the outputs, and the lock time.
pub open spec fn tail_bytes(
    input_sequence: u32,
    outputs_count: u32,
    outputs: Seq<u8>,
    locktime: u32,
) -> Seq<u8> {
    le_bytes(input_sequence) + compact_size(outputs_count as u64) + outputs + le_bytes(locktime)
}

/// Appends `bytes` to `out`.
fn append(out: &mut Vec<u8>, bytes: &[u8])
    ensures
        final(out)@ == old(out)@ + bytes@,
{
    let ghost before = out@;
    let mut i: usize = 0;
    while i < bytes.len()
        invariant
            i <= bytes@.len(),
            out@ == before + bytes@.subrange(0, i as int),
        decreases bytes@.len() - i,
    {
        out.push(bytes[i]);
        i += 1;
    }
    assert(bytes@.subrange(0, bytes@.len() as int) =~= bytes@);
}

/// Writes a count in the variable-length form of transactions.
pub fn write_compact_size(n: u64) -> (out: Vec<u8>)
    ensures
        out@ == compact_size(n),
{
    let mut out: Vec<u8> = Vec::new();
    if n < 0xfd {
        out.push(n as u8);
    } else if n <= 0xffff {
        out.push(0xfd);
        out.push((n % 0x100) as u8);
        out.push((n / 0x100) as u8);
    } else if n <= 0xffff_ffff {
        out.push(0xfe);
        let low = word_to_le(n as u32);
        append(&mut out, low.as_slice());
    } else {
        out.push(0xff);
        let low = word_to_le((n % 0x1_0000_0000) as u32);
        let high = word_to_le((n / 0x1_0000_0000) as u32);
        append(&mut out, low.as_slice());
        append(&mut out, high.as_slice());
    }
    assert(out@ =~= compact_size(n));
    out
}

/// Builds the coinbase transaction up to the extranonce.
pub fn coinbase_head(tx_version: u32, prefix: &[u8], extranonce_len: usize) -> (out: Vec<u8>)
    requires
        prefix@.len() + extranonce_len <= u64::MAX,
    ensures
        out@ == head_bytes(tx_version, prefix@, extranonce_len as nat),
{
    let mut out: Vec<u8> = Vec::new();
    let version = word_to_le(tx_version);
    append(&mut out, version.as_slice());
    out.push(0x01);
    let mut i: usize = 0;
    while i < NULL_OUTPOINT_LEN
        invariant
            i <= NULL_OUTPOINT_LEN,
            out@ == le_bytes(tx_version) + seq![0x01u8] + null_outpoint().subrange(0, i as int),
        decreases NULL_OUTPOINT_LEN - i,
    {
        out.push(if i < 32 { 0x00 } else { 0xff });
        i += 1;
    }
    assert(null_outpoint().subrange(0, NULL_OUTPOINT_LEN as int) =~= null_outpoint());
    let script_len = write_compact_size(prefix.len() as u64 + extranonce_len as u64);
    append(&mut out, script_len.as_slice());
    append(&mut out, prefix);
    out
}

/// Builds the coinbase transaction after the extranonce.
pub fn coinbase_tail(
    input_sequence: u32,
    outputs_count: u32,
    outputs: &[u8],
    locktime: u32,
) -> (out: Vec<u8>)
    ensures
        out@ == tail_bytes(input_sequence, outputs_count, outputs@, locktime),
{
    let mut out: Vec<u8> = Vec::new();
    let sequence = word_to_le(input_sequence);
    append(&mut out, sequence.as_slice());
    let count = write_compact_size(outputs_count as u64);
    append(&mut out, count.as_slice());
    append(&mut out, outputs);
    let lock = word_to_le(locktime);
    append(&mut out, lock.as_slice());
    out
}

} // verus!
