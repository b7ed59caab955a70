//! Plain-value models of what the host environment supplies: account
//! identities, balances, and the per-call execution context.

use vstd::prelude::*;

verus! {

/// An account identity, fixed by the host's authentication substrate and
/// handed to the contract as an opaque, comparable value.
#[derive(Clone, Copy, Debug, PartialEq, Eq, Structural, Hash)]
pub struct AccountId(pub u64);

/// An amount of custodied value, in the smallest indivisible unit.
pub type Balance = u128;

/// The closed set of failures an operation can report. Every failure is
/// returned as a value; no operation aborts.
#[derive(Clone, Copy, Debug, PartialEq, Eq, Structural)]
pub enum Error {
    LotteryNotRunning,
    CallerNotOwner,
    NoValueSent,
    ErrTransfer,
    PlayerAlreadyInLottery,
    NoEntries,
}

/// The values the host environment supplies for a single call.
///
/// The contract itself never reaches out to the host: the caller's verified
/// identity, the value attached to the call, the contract's custodied
/// balance, and the block coordinates are injected here, and the one
/// transfer instruction a call may issue is modelled by its observed
/// outcome, `transfer_succeeds`. A test substitutes a deterministic fake by
/// building this struct directly.
#[derive(Clone, Copy, Debug)]
pub struct Env {
    /// The verified identity of the account making this call.
    pub caller: AccountId,
    /// The value attached to this call (zero when none was sent).
    pub transferred_value: Balance,
    /// The total value currently custodied by the contract: the pot.
    pub balance: Balance,
    /// The current block's timestamp.
    pub block_timestamp: u64,
    /// The current block's height.
    pub block_number: u32,
    /// The host's report on the transfer instruction issued during this
    /// call, if the call issues one: `true` means the value reached the
    /// recipient, `false` means the transfer failed and no value moved.
    pub transfer_succeeds: bool,
}

} // verus!
