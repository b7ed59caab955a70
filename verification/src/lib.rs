//! A custodial pooling game. Participants deposit value into a shared pot
//! while an operator-controlled round is running; a single pseudo-random
//! draw then transfers the entire pot to one depositor and clears every
//! record. The draw is derived from publicly visible inputs (a digest of
//! the entry list, the block height and timestamp), so it is deliberately
//! not cryptographically secure: an adversary who can predict or influence
//! block production could bias it. It is suitable only for low-stakes,
//! non-adversarial use.

pub mod codec;
pub mod digest;
pub mod draw;
pub mod events;
pub mod ledger;
pub mod lottery;
pub mod types;

pub use crate::events::Entered;
pub use crate::events::Won;
pub use crate::ledger::StakeMap;
pub use crate::lottery::LotteryTest;
pub use crate::types::AccountId;
pub use crate::types::Balance;
pub use crate::types::Env;
pub use crate::types::Error;
