//! The byte format of the draw's digest input: the ordered participant list,
//! laid out as a compact-encoded length followed by each identity as eight
//! little-endian bytes. This is the standard SCALE layout for a list of
//! 64-bit words, so the digest input matches what an ordinary SCALE encoder
//! would produce for the same list.

use vstd::prelude::*;

use crate::types::AccountId;

verus! {

/// The largest list length the compact length prefix can carry.
pub const MAX_ENCODABLE_LEN: usize = 0xFFFF_FFFF;

/// The compact encoding of a list length `n` (with `0 <= n <= 0xFFFF_FFFF`):
/// the two low bits of the first byte select one of four widths, and the
/// remaining bits carry the value, least-significant byte first.
pub open spec fn compact_len_bytes(n: int) -> Seq<u8> {
    if n < 64 {
        seq![(n * 4) as u8]
    } else if n < 16384 {
        let v = n * 4 + 1;
        seq![(v % 256) as u8, (v / 256) as u8]
    } else if n < 0x4000_0000 {
        let v = n * 4 + 2;
        seq![
            (v % 256) as u8,
            ((v / 256) % 256) as u8,
            ((v / 0x1_0000) % 256) as u8,
            (v / 0x100_0000) as u8,
        ]
    } else {
        seq![
            3u8,
            (n % 256) as u8,
            ((n / 256) % 256) as u8,
            ((n / 0x1_0000) % 256) as u8,
            (n / 0x100_0000) as u8,
        ]
    }
}

/// The eight little-endian bytes of one identity.
pub open spec fn account_bytes(a: AccountId) -> Seq<u8> {
    let v = a.0 as int;
    seq![
        (v % 256) as u8,
        ((v / 256) % 256) as u8,
        ((v / 0x1_0000) % 256) as u8,
        ((v / 0x100_0000) % 256) as u8,
        ((v / 0x1_0000_0000) % 256) as u8,
        ((v / 0x100_0000_0000) % 256) as u8,
        ((v / 0x1_0000_0000_0000) % 256) as u8,
        (v / 0x100_0000_0000_0000) as u8,
    ]
}

/// The concatenated bytes of every identity in the list, in order.
pub open spec fn accounts_bytes(players: Seq<AccountId>) -> Seq<u8>
    decreases players.len(),
{
    if players.len() == 0 {
        Seq::empty()
    } else {
        accounts_bytes(players.drop_last()) + account_bytes(players.last())
    }
}

/// The full digest input for a participant list: its compact-encoded length
/// followed by the identities' bytes.
pub open spec fn players_encoding(players: Seq<AccountId>) -> Seq<u8> {
    compact_len_bytes(players.len() as int) + accounts_bytes(players)
}

/// Appends the compact encoding of `n` to `out`.
fn push_compact_len(out: &mut Vec<u8>, n: u32)
    ensures
        final(out)@ == old(out)@ + compact_len_bytes(n as int),
{
    if n < 64 {
        out.push((n * 4) as u8);
    } else if n < 16384 {
        let v: u32 = n * 4 + 1;
        out.push((v % 256) as u8);
        out.push((v / 256) as u8);
    } else if n < 0x4000_0000 {
        let v: u32 = n * 4 + 2;
        out.push((v % 256) as u8);
        out.push(((v / 256) % 256) as u8);
        out.push(((v / 0x1_0000) % 256) as u8);
        out.push((v / 0x100_0000) as u8);
    } else {
        out.push(3u8);
        out.push((n % 256) as u8);
        out.push(((n / 256) % 256) as u8);
        out.push(((n / 0x1_0000) % 256) as u8);
        out.push((n / 0x100_0000) as u8);
    }
    assert(out@ =~= old(out)@ + compact_len_bytes(n as int));
}

/// Appends the eight little-endian bytes of one identity to `out`.
fn push_account_bytes(out: &mut Vec<u8>, a: AccountId)
    ensures
        final(out)@ == old(out)@ + account_bytes(a),
{
    let v: u64 = a.0;
    out.push((v % 256) as u8);
    out.push(((v / 256) % 256) as u8);
    out.push(((v / 0x1_0000) % 256) as u8);
    out.push(((v / 0x100_0000) % 256) as u8);
    out.push(((v / 0x1_0000_0000) % 256) as u8);
    out.push(((v / 0x100_0000_0000) % 256) as u8);
    out.push(((v / 0x1_0000_0000_0000) % 256) as u8);
    out.push((v / 0x100_0000_0000_0000) as u8);
    assert(out@ =~= old(out)@ + account_bytes(a));
}

proof fn lemma_accounts_bytes_step(players: Seq<AccountId>, i: int)
    requires
        0 <= i < players.len(),
    ensures
        accounts_bytes(players.take(i + 1)) == accounts_bytes(players.take(i)) + account_bytes(
            players[i],
        ),
{
    assert(players.take(i + 1).drop_last() =~= players.take(i));
    assert(players.take(i + 1).last() == players[i]);
}

/// Encodes a participant list as the digest input bytes.
pub fn encode_players(players: &Vec<AccountId>) -> (r: Vec<u8>)
    requires
        players@.len() <= MAX_ENCODABLE_LEN,
    ensures
        r@ == players_encoding(players@),
{
    let mut out: Vec<u8> = Vec::new();
    push_compact_len(&mut out, players.len() as u32);
    let n = players.len();
    for i in 0..n
        invariant
            n == players@.len() <= MAX_ENCODABLE_LEN,
            out@ == compact_len_bytes(players@.len() as int) + accounts_bytes(
                players@.take(i as int),
            ),
    {
        proof {
            lemma_accounts_bytes_step(players@, i as int);
        }
        push_account_bytes(&mut out, players[i]);
    }
    proof {
        assert(players@.take(n as int) =~= players@);
    }
    out
}

} // verus!
