//! The notifications a call can emit. They are returned to the host as plain
//! values for it to publish to listeners; they are not queryable state.

use vstd::prelude::*;

use crate::types::AccountId;
use crate::types::Balance;

verus! {

/// Emitted when an entry is accepted: who entered and what they staked.
#[derive(Clone, Copy, Debug, PartialEq, Eq, Structural)]
pub struct Entered {
    pub player: AccountId,
    pub value: Balance,
}

/// Emitted when a winner is paid: who won and the amount transferred.
#[derive(Clone, Copy, Debug, PartialEq, Eq, Structural)]
pub struct Won {
    pub winner: AccountId,
    pub amount: Balance,
}

} // verus!
