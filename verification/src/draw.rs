//! How a winner is drawn: a 64-bit seed is read big-endian from the head of
//! the Keccak-256 digest of the encoded participant list, mixed with the
//! block coordinates, scrambled by one xorshift round, and reduced modulo
//! the participant count. The draw is a pure function of the ledger contents
//! and the block coordinates; it is recomputed fresh on every call and is
//! predictable by anyone who can see them.

use vstd::prelude::*;

use crate::codec::players_encoding;
use crate::digest::keccak256_of;
use crate::types::AccountId;

verus! {

/// The unsigned 64-bit value of the first eight bytes of `s`, read
/// big-endian (most significant byte first).
pub open spec fn be_u64_of(s: Seq<u8>) -> u64
    recommends
        s.len() >= 8,
{
    (s[0] * 0x100_0000_0000_0000 + s[1] * 0x1_0000_0000_0000 + s[2] * 0x100_0000_0000 + s[3]
        * 0x1_0000_0000 + s[4] * 0x100_0000 + s[5] * 0x1_0000 + s[6] * 0x100 + s[7]) as u64
}

/// One round of xorshift mixing.
pub open spec fn scramble(x: u64) -> u64 {
    let a = x ^ (x << 13);
    let b = a ^ (a >> 7);
    b ^ (b << 17)
}

/// The draw seed for a participant list: the head of the digest of its
/// encoding, folded with the block timestamp and the block height.
pub open spec fn seed_of(players: Seq<AccountId>, block_timestamp: u64, block_number: u32) -> u64 {
    be_u64_of(keccak256_of(players_encoding(players))) ^ block_timestamp ^ (block_number as u64)
}

/// The index of the drawn winner within a non-empty participant list.
pub open spec fn winner_index_of(
    players: Seq<AccountId>,
    block_timestamp: u64,
    block_number: u32,
) -> int
    recommends
        players.len() > 0,
{
    scramble(seed_of(players, block_timestamp, block_number)) as int % players.len() as int
}

/// Reads the first eight bytes of `bytes` as a big-endian 64-bit value.
pub fn u64_from_be_prefix(bytes: &Vec<u8>) -> (r: u64)
    requires
        bytes@.len() >= 8,
    ensures
        r == be_u64_of(bytes@),
{
    (bytes[0] as u64) * 0x100_0000_0000_0000 + (bytes[1] as u64) * 0x1_0000_0000_0000 + (
    bytes[2] as u64) * 0x100_0000_0000 + (bytes[3] as u64) * 0x1_0000_0000 + (bytes[4] as u64)
        * 0x100_0000 + (bytes[5] as u64) * 0x1_0000 + (bytes[6] as u64) * 0x100 + (bytes[7] as u64)
}

/// Applies one round of xorshift mixing.
pub fn xorshift_scramble(x0: u64) -> (r: u64)
    ensures
        r == scramble(x0),
{
    let mut x = x0;
    x = x ^ (x << 13u64);
    x = x ^ (x >> 7u64);
    x = x ^ (x << 17u64);
    x
}

} // verus!
