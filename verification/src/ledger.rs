//! The stake mapping of the entry ledger: each participant's identity paired
//! with the value they staked. It is stored as an association vector whose
//! keys are pairwise distinct and is viewed as a finite map from identity to
//! stake.

use vstd::prelude::*;

use crate::types::AccountId;
use crate::types::Balance;

verus! {

/// The map an association vector denotes: later pairs win, though with
/// distinct keys no pair ever shadows another.
pub open spec fn assoc_map(s: Seq<(AccountId, Balance)>) -> Map<AccountId, Balance>
    decreases s.len(),
{
    if s.len() == 0 {
        Map::empty()
    } else {
        assoc_map(s.drop_last()).insert(s.last().0, s.last().1)
    }
}

/// Pairwise-distinct keys.
pub open spec fn distinct_keys(s: Seq<(AccountId, Balance)>) -> bool {
    forall|i: int, j: int|
        0 <= i < j < s.len() ==> (#[trigger] s[i]).0 != (#[trigger] s[j]).0
}

/// A key is in the denoted map exactly when some pair carries it.
proof fn lemma_assoc_map_dom(s: Seq<(AccountId, Balance)>)
    ensures
        forall|k: AccountId|
            #[trigger] assoc_map(s).contains_key(k) <==> exists|i: int|
                0 <= i < s.len() && (#[trigger] s[i]).0 == k,
    decreases s.len(),
{
    if s.len() == 0 {
    } else {
        let pre = s.drop_last();
        lemma_assoc_map_dom(pre);
        assert forall|k: AccountId| assoc_map(s).contains_key(k) implies exists|i: int|
            0 <= i < s.len() && (#[trigger] s[i]).0 == k by {
            if k == s.last().0 {
                assert(s[s.len() - 1].0 == k);
            } else {
                assert(assoc_map(pre).contains_key(k));
                let i = choose|i: int| 0 <= i < pre.len() && (#[trigger] pre[i]).0 == k;
                assert(s[i].0 == k);
            }
        }
        assert forall|k: AccountId| (exists|i: int|
            0 <= i < s.len() && (#[trigger] s[i]).0 == k) implies assoc_map(s).contains_key(k) by {
            let i = choose|i: int| 0 <= i < s.len() && (#[trigger] s[i]).0 == k;
            if i < s.len() - 1 {
                assert(pre[i].0 == k);
                assert(assoc_map(pre).contains_key(k));
            }
        }
    }
}

/// With distinct keys, the pair at index `i` gives the value the denoted map
/// assigns to its key.
proof fn lemma_assoc_map_index(s: Seq<(AccountId, Balance)>, i: int)
    requires
        distinct_keys(s),
        0 <= i < s.len(),
    ensures
        assoc_map(s).contains_key(s[i].0),
        assoc_map(s)[s[i].0] == s[i].1,
    decreases s.len(),
{
    let pre = s.drop_last();
    if i == s.len() - 1 {
    } else {
        assert(pre[i] == s[i]);
        lemma_assoc_map_index(pre, i);
        assert(s[s.len() - 1].0 != s[i].0);
    }
}

/// With distinct keys, removing the pair at index `i` removes exactly its
/// key from the denoted map.
proof fn lemma_assoc_map_remove(s: Seq<(AccountId, Balance)>, i: int)
    requires
        distinct_keys(s),
        0 <= i < s.len(),
    ensures
        assoc_map(s.remove(i)) == assoc_map(s).remove(s[i].0),
    decreases s.len(),
{
    let pre = s.drop_last();
    let k = s[i].0;
    if i == s.len() - 1 {
        assert(s.remove(i) =~= pre);
        lemma_assoc_map_dom(pre);
        assert(forall|j: int| 0 <= j < pre.len() ==> (#[trigger] pre[j]).0 != k);
        assert(!assoc_map(pre).contains_key(k));
        assert(assoc_map(pre).insert(s.last().0, s.last().1).remove(k) =~= assoc_map(pre));
    } else {
        assert(s.remove(i).drop_last() =~= pre.remove(i));
        assert(s.remove(i).last() == s.last());
        assert(pre[i] == s[i]);
        lemma_assoc_map_remove(pre, i);
        assert(s.last().0 != k);
        assert(assoc_map(pre).remove(k).insert(s.last().0, s.last().1) =~= assoc_map(pre).insert(
            s.last().0,
            s.last().1,
        ).remove(k));
        assert(assoc_map(s.remove(i)) == assoc_map(pre.remove(i)).insert(
            s.last().0,
            s.last().1,
        ));
    }
}

/// The identity-to-stake mapping. Keys are unique; the presence of a key is
/// the "already entered" check.
pub struct StakeMap {
    pairs: Vec<(AccountId, Balance)>,
}

impl View for StakeMap {
    type V = Map<AccountId, Balance>;

    closed spec fn view(&self) -> Map<AccountId, Balance> {
        assoc_map(self.pairs@)
    }
}

impl StakeMap {
    /// The stored pairs carry pairwise-distinct keys.
    pub closed spec fn wf(self) -> bool {
        distinct_keys(self.pairs@)
    }

    /// An empty mapping.
    pub fn new() -> (r: StakeMap)
        ensures
            r.wf(),
            r@ == Map::<AccountId, Balance>::empty(),
    {
        StakeMap { pairs: Vec::new() }
    }

    /// The stake recorded for `key`, or `None` when `key` never entered.
    pub fn get(&self, key: AccountId) -> (r: Option<Balance>)
        requires
            self.wf(),
        ensures
            r == if self@.contains_key(key) {
                Some(self@[key])
            } else {
                None::<Balance>
            },
    {
        let n = self.pairs.len();
        for idx in 0..n
            invariant
                n == self.pairs@.len(),
                self.wf(),
                forall|j: int| 0 <= j < idx ==> (#[trigger] self.pairs@[j]).0 != key,
        {
            if self.pairs[idx].0 == key {
                proof {
                    lemma_assoc_map_index(self.pairs@, idx as int);
                }
                return Some(self.pairs[idx].1);
            }
        }
        proof {
            lemma_assoc_map_dom(self.pairs@);
        }
        None
    }

    /// Records `value` against a key not yet present.
    pub fn insert(&mut self, key: AccountId, value: Balance)
        requires
            old(self).wf(),
            !old(self)@.contains_key(key),
        ensures
            final(self).wf(),
            final(self)@ == old(self)@.insert(key, value),
    {
        proof {
            lemma_assoc_map_dom(self.pairs@);
        }
        let ghost s0 = self.pairs@;
        self.pairs.push((key, value));
        proof {
            assert(self.pairs@.drop_last() =~= s0);
            assert forall|i: int, j: int| 0 <= i < j < self.pairs@.len() implies (
            #[trigger] self.pairs@[i]).0 != (#[trigger] self.pairs@[j]).0 by {
                if j < s0.len() {
                    assert(s0[i].0 != s0[j].0);
                } else {
                    assert(s0[i].0 != key);
                }
            }
        }
    }

    /// Removes whatever stake is recorded for `key`; a key never entered
    /// leaves the mapping as it was.
    pub fn remove(&mut self, key: AccountId)
        requires
            old(self).wf(),
        ensures
            final(self).wf(),
            final(self)@ == old(self)@.remove(key),
    {
        let ghost s0 = self.pairs@;
        let n = self.pairs.len();
        for idx in 0..n
            invariant
                self.pairs@ == s0,
                s0 == old(self).pairs@,
                n == s0.len(),
                distinct_keys(s0),
                forall|j: int| 0 <= j < idx ==> (#[trigger] s0[j]).0 != key,
        {
            if self.pairs[idx].0 == key {
                self.pairs.remove(idx);
                proof {
                    lemma_assoc_map_remove(s0, idx as int);
                    assert(s0[idx as int].0 == key);
                    assert(self.pairs@ == s0.remove(idx as int));
                    assert(assoc_map(self.pairs@) == assoc_map(s0).remove(key));
                    assert forall|a: int, b: int| 0 <= a < b < self.pairs@.len() implies (
                    #[trigger] self.pairs@[a]).0 != (#[trigger] self.pairs@[b]).0 by {
                        let a0: int = if a < idx {
                            a
                        } else {
                            a + 1
                        };
                        let b0: int = if b < idx {
                            b
                        } else {
                            b + 1
                        };
                        assert(self.pairs@[a] == s0[a0]);
                        assert(self.pairs@[b] == s0[b0]);
                        assert(s0[a0].0 != s0[b0].0);
                    }
                }
                return ;
            }
        }
        proof {
            lemma_assoc_map_dom(s0);
            assert(!assoc_map(s0).contains_key(key));
            assert(assoc_map(s0).remove(key) =~= assoc_map(s0));
        }
    }
}

} // verus!
