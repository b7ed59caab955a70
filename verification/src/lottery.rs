//! The lottery itself: a state machine owning the running flag, the operator
//! identity and the entry ledger. Deposits are accepted while the round is
//! running; a permissionless draw pays the whole pot to one participant and,
//! only after the transfer is confirmed, clears every record.

use vstd::prelude::*;

use crate::codec::MAX_ENCODABLE_LEN;
use crate::codec::encode_players;
use crate::digest::keccak256;
use crate::draw::scramble;
use crate::draw::seed_of;
use crate::draw::u64_from_be_prefix;
use crate::draw::winner_index_of;
use crate::draw::xorshift_scramble;
use crate::events::Entered;
use crate::events::Won;
use crate::ledger::StakeMap;
use crate::types::AccountId;
use crate::types::Balance;
use crate::types::Env;
use crate::types::Error;

verus! {

/// The contract's whole persistent state.
pub struct LotteryTest {
    /// A single stored flag fixed at construction; no operation reads it.
    pub value: bool,
    /// The operator: the only identity allowed to start or stop the round.
    pub owner: AccountId,
    /// Whether entries are currently accepted.
    pub running: bool,
    /// The participants, in entry order, without duplicates.
    pub players: Vec<AccountId>,
    /// The stake each participant deposited.
    pub entries: StakeMap,
}

impl LotteryTest {
    /// The entry ledger's two structures agree: the stake mapping's keys are
    /// exactly the identities in the participant sequence, the sequence has
    /// no duplicates, and its length stays within what the digest-input
    /// encoding can carry.
    pub open spec fn wf(self) -> bool {
        &&& self.entries.wf()
        &&& self.players@.no_duplicates()
        &&& self.players@.len() <= MAX_ENCODABLE_LEN
        &&& forall|a: AccountId|
            self.entries@.contains_key(a) <==> #[trigger] self.players@.contains(a)
    }

    /// Creates the contract: the constructing caller becomes the operator,
    /// the round starts stopped, and the ledger starts empty. The stored
    /// flag takes `init_value` and plays no further part.
    pub fn new(init_value: bool, env: &Env) -> (r: LotteryTest)
        ensures
            r.wf(),
            r.value == init_value,
            r.owner == env.caller,
            !r.running,
            r.players@ == Seq::<AccountId>::empty(),
            r.entries@ == Map::<AccountId, Balance>::empty(),
    {
        let r = LotteryTest {
            value: init_value,
            owner: env.caller,
            running: false,
            players: Vec::new(),
            entries: StakeMap::new(),
        };
        proof {
            assert(forall|a: AccountId| !r.players@.contains(a));
        }
        r
    }

    /// The operator's identity.
    pub fn owner(&self) -> (r: AccountId)
        ensures
            r == self.owner,
    {
        self.owner
    }

    /// The pot: the total value the host reports as custodied by the
    /// contract. It is observed, never tracked, and may exceed the sum of
    /// recorded stakes if value arrived outside `enter`.
    pub fn pot(&self, env: &Env) -> (r: Balance)
        ensures
            r == env.balance,
    {
        env.balance
    }

    /// Whether entries are currently accepted.
    pub fn is_running(&self) -> (r: bool)
        ensures
            r == self.running,
    {
        self.running
    }

    /// A snapshot copy of the participant sequence, in entry order.
    pub fn get_players(&self) -> (r: Vec<AccountId>)
        ensures
            r@ == self.players@,
    {
        let mut out: Vec<AccountId> = Vec::new();
        let n = self.players.len();
        for i in 0..n
            invariant
                n == self.players@.len(),
                out@ == self.players@.take(i as int),
        {
            out.push(self.players[i]);
            proof {
                assert(self.players@.take(i as int).push(self.players@[i as int])
                    =~= self.players@.take(i + 1 as int));
            }
        }
        proof {
            assert(self.players@.take(n as int) =~= self.players@);
        }
        out
    }

    /// The stake recorded for `caller`, or `None` if they never entered.
    pub fn get_balances(&self, caller: AccountId) -> (r: Option<Balance>)
        requires
            self.wf(),
        ensures
            r == if self.entries@.contains_key(caller) {
                Some(self.entries@[caller])
            } else {
                None::<Balance>
            },
    {
        self.entries.get(caller)
    }

    /// The draw seed: the head of the digest of the encoded participant
    /// list, folded with the block coordinates.
    fn seed(&self, env: &Env) -> (r: u64)
        requires
            self.wf(),
        ensures
            r == seed_of(self.players@, env.block_timestamp, env.block_number),
    {
        let encoded = encode_players(&self.players);
        let hash = keccak256(&encoded);
        let num = u64_from_be_prefix(&hash);
        num ^ env.block_timestamp ^ (env.block_number as u64)
    }

    /// The scrambled draw value. Recomputed fresh on every draw; a pure
    /// function of the ledger contents and the block coordinates.
    fn random(&self, env: &Env) -> (r: u64)
        requires
            self.wf(),
        ensures
            r == scramble(seed_of(self.players@, env.block_timestamp, env.block_number)),
    {
        xorshift_scramble(self.seed(env))
    }

    /// Records an entry. The guards are checked in order — the round must be
    /// running, the caller must not already hold an entry, and the attached
    /// value must be at least one unit — and the first failing guard returns
    /// its error with nothing mutated. On success the caller is appended to
    /// the participant sequence, their stake is recorded, and the `Entered`
    /// notification is returned for the host to emit.
    pub fn enter(&mut self, env: &Env) -> (r: Result<Entered, Error>)
        requires
            old(self).wf(),
            old(self).players@.len() < MAX_ENCODABLE_LEN,
        ensures
            final(self).wf(),
            final(self).value == old(self).value,
            final(self).owner == old(self).owner,
            final(self).running == old(self).running,
            !old(self).running ==> r == Err::<Entered, Error>(Error::LotteryNotRunning)
                && *final(self) == *old(self),
            old(self).running && old(self).entries@.contains_key(env.caller) ==> r == Err::<
                Entered,
                Error,
            >(Error::PlayerAlreadyInLottery) && *final(self) == *old(self),
            old(self).running && !old(self).entries@.contains_key(env.caller)
                && env.transferred_value < 1 ==> r == Err::<Entered, Error>(Error::NoValueSent)
                && *final(self) == *old(self),
            old(self).running && !old(self).entries@.contains_key(env.caller)
                && env.transferred_value >= 1 ==> {
                &&& r == Ok::<Entered, Error>(
                    (Entered { player: env.caller, value: env.transferred_value }),
                )
                &&& final(self).players@ == old(self).players@.push(env.caller)
                &&& final(self).entries@ == old(self).entries@.insert(
                    env.caller,
                    env.transferred_value,
                )
            },
    {
        if !self.running {
            return Err(Error::LotteryNotRunning);
        }
        let caller = env.caller;
        let balance = self.entries.get(caller);
        if balance.is_some() {
            return Err(Error::PlayerAlreadyInLottery);
        }
        let value = env.transferred_value;
        if value < 1 {
            return Err(Error::NoValueSent);
        }
        let ghost players0 = self.players@;
        self.players.push(caller);
        self.entries.insert(caller, value);
        proof {
            assert(!players0.contains(caller));
            assert forall|a: AccountId|
                self.entries@.contains_key(a) <==> #[trigger] self.players@.contains(a) by {
                if a == caller {
                    assert(self.players@[players0.len() as int] == caller);
                } else {
                    assert(self.players@.contains(a) <==> players0.contains(a)) by {
                        if self.players@.contains(a) {
                            let i = choose|i: int|
                                0 <= i < self.players@.len() && self.players@[i] == a;
                            assert(players0[i] == a);
                        } else {
                            if players0.contains(a) {
                                let i = choose|i: int|
                                    0 <= i < players0.len() && players0[i] == a;
                                assert(self.players@[i] == a);
                            }
                        }
                    }
                }
            }
            assert forall|i: int, j: int|
                0 <= i < j < self.players@.len() implies self.players@[i] != self.players@[j] by {
                if j < players0.len() {
                    assert(players0[i] != players0[j]);
                } else {
                    assert(self.players@[j] == caller);
                    assert(players0[i] == self.players@[i]);
                    assert(players0.contains(players0[i]));
                }
            }
        }
        Ok(Entered { player: caller, value })
    }

    /// Draws a winner and pays out the whole pot. Fails with `NoEntries`
    /// when nobody entered, touching nothing. The transfer is attempted
    /// before any clearing: if the host reports it failed, the call returns
    /// `ErrTransfer` with the ledger fully intact, so the draw can be
    /// retried. Only after a confirmed transfer are every stake and the
    /// participant sequence cleared, and the `Won` notification returned for
    /// the host to emit. The running flag is left untouched. Any caller may
    /// draw; the draw is deliberately permissionless.
    pub fn pick_winner(&mut self, env: &Env) -> (r: Result<Won, Error>)
        requires
            old(self).wf(),
        ensures
            final(self).wf(),
            final(self).value == old(self).value,
            final(self).owner == old(self).owner,
            final(self).running == old(self).running,
            old(self).players@.len() == 0 ==> r == Err::<Won, Error>(Error::NoEntries)
                && *final(self) == *old(self),
            old(self).players@.len() > 0 && !env.transfer_succeeds ==> r == Err::<Won, Error>(
                Error::ErrTransfer,
            ) && *final(self) == *old(self),
            old(self).players@.len() > 0 && env.transfer_succeeds ==> {
                &&& r == Ok::<Won, Error>(
                    (Won {
                        winner: old(self).players@[winner_index_of(
                            old(self).players@,
                            env.block_timestamp,
                            env.block_number,
                        )],
                        amount: env.balance,
                    }),
                )
                &&& final(self).players@ == Seq::<AccountId>::empty()
                &&& final(self).entries@ == Map::<AccountId, Balance>::empty()
            },
    {
        if self.players.len() == 0 {
            return Err(Error::NoEntries);
        }
        let winner_index = self.random(env) % (self.players.len() as u64);
        proof {
            assert(winner_index as int == winner_index_of(
                self.players@,
                env.block_timestamp,
                env.block_number,
            ));
        }
        let winner = self.players[winner_index as usize];
        let amount = env.balance;
        if !env.transfer_succeeds {
            return Err(Error::ErrTransfer);
        }
        let ghost players0 = self.players@;
        let n = self.players.len();
        proof {
            assert forall|a: AccountId|
                #[trigger] self.entries@.contains_key(a) <==> exists|j: int|
                    0 <= j < n && players0[j] == a by {
                assert(self.entries@.contains_key(a) <==> self.players@.contains(a));
                if self.players@.contains(a) {
                    let j = choose|j: int| 0 <= j < players0.len() && players0[j] == a;
                    assert(0 <= j < n && players0[j] == a);
                }
                if exists|j: int| 0 <= j < n && players0[j] == a {
                    let j = choose|j: int| 0 <= j < n && players0[j] == a;
                    assert(self.players@.contains(a));
                }
            }
        }
        for i in 0..n
            invariant
                self.players@ == players0,
                players0 == old(self).players@,
                self.owner == old(self).owner,
                self.running == old(self).running,
                self.value == old(self).value,
                n == players0.len(),
                players0.no_duplicates(),
                self.entries.wf(),
                forall|a: AccountId|
                    #[trigger] self.entries@.contains_key(a) <==> exists|j: int|
                        i <= j < n && players0[j] == a,
        {
            let player = self.players[i];
            let ghost pre = self.entries@;
            self.entries.remove(player);
            proof {
                assert forall|a: AccountId| #[trigger]
                    self.entries@.contains_key(a) <==> exists|j: int|
                        i + 1 <= j < n && players0[j] == a by {
                    if self.entries@.contains_key(a) {
                        assert(pre.contains_key(a) && a != players0[i as int]);
                        let j = choose|j: int| i <= j < n && players0[j] == a;
                        assert(i + 1 <= j < n && players0[j] == a);
                    } else {
                        if exists|j: int| i + 1 <= j < n && players0[j] == a {
                            let j = choose|j: int| i + 1 <= j < n && players0[j] == a;
                            assert(pre.contains_key(a));
                            assert(a != players0[i as int]);
                        }
                    }
                }
            }
        }
        proof {
            assert forall|a: AccountId| !(#[trigger] self.entries@.contains_key(a)) by {
                if exists|j: int| n <= j < n && players0[j] == a {
                    let j = choose|j: int| n <= j < n && players0[j] == a;
                    assert(false);
                }
            }
            assert(self.entries@ =~= Map::<AccountId, Balance>::empty());
        }
        self.players = Vec::new();
        proof {
            assert(self.players@ =~= Seq::<AccountId>::empty());
            assert(forall|a: AccountId| !self.players@.contains(a));
        }
        Ok(Won { winner, amount })
    }

    /// Starts accepting entries. Only the operator may call this; any other
    /// caller gets `CallerNotOwner` and nothing changes. Starting an
    /// already-running round is a no-op success.
    pub fn start_lottery(&mut self, env: &Env) -> (r: Result<(), Error>)
        requires
            old(self).wf(),
        ensures
            final(self).wf(),
            env.caller != old(self).owner ==> r == Err::<(), Error>(Error::CallerNotOwner)
                && *final(self) == *old(self),
            env.caller == old(self).owner ==> {
                &&& r == Ok::<(), Error>(())
                &&& final(self).running
                &&& final(self).value == old(self).value
                &&& final(self).owner == old(self).owner
                &&& final(self).players == old(self).players
                &&& final(self).entries == old(self).entries
            },
    {
        if env.caller != self.owner {
            return Err(Error::CallerNotOwner);
        }
        self.running = true;
        Ok(())
    }

    /// Stops accepting entries, under the same guard and idempotence as
    /// `start_lottery`.
    pub fn stop_lottery(&mut self, env: &Env) -> (r: Result<(), Error>)
        requires
            old(self).wf(),
        ensures
            final(self).wf(),
            env.caller != old(self).owner ==> r == Err::<(), Error>(Error::CallerNotOwner)
                && *final(self) == *old(self),
            env.caller == old(self).owner ==> {
                &&& r == Ok::<(), Error>(())
                &&& !final(self).running
                &&& final(self).value == old(self).value
                &&& final(self).owner == old(self).owner
                &&& final(self).players == old(self).players
                &&& final(self).entries == old(self).entries
            },
    {
        if env.caller != self.owner {
            return Err(Error::CallerNotOwner);
        }
        self.running = false;
        Ok(())
    }
}

/// Law: in every well-formed state the participant sequence's length equals
/// the stake mapping's key count, so the two ledger structures never drift
/// apart across any sequence of accepted entries.
pub proof fn lemma_player_count_matches_stake_count(lt: LotteryTest)
    requires
        lt.wf(),
    ensures
        lt.entries@.dom().len() == lt.players@.len(),
{
    assert(lt.entries@.dom() =~= lt.players@.to_set());
    lt.players@.unique_seq_to_set();
}

/// Law: with exactly one participant the draw always selects index zero —
/// that participant — whatever the digest value and block coordinates.
pub proof fn lemma_single_participant_always_wins(
    players: Seq<AccountId>,
    block_timestamp: u64,
    block_number: u32,
)
    requires
        players.len() == 1,
    ensures
        winner_index_of(players, block_timestamp, block_number) == 0,
{
    assert(scramble(seed_of(players, block_timestamp, block_number)) as int % 1int == 0);
}

} // verus!
