//! Data model: asset holdings, per-asset quota records, and the contract
//! state (the keyed quota store plus the single balance-snapshot slot).

use vstd::prelude::*;

verus! {

/// A fungible asset holding: a denomination and the amount held.
#[derive(Debug, Clone, PartialEq, Eq)]
pub struct Coin {
    pub denom: String,
    pub amount: u128,
}

/// The quota record of one asset.
///
/// While the window that started at `time_set` is active, cumulative spend
/// `used` may not pass `limit`. Once the window has elapsed the record keeps
/// accumulating `used` but no longer restricts anything (see
/// `crate::contract`).
#[derive(Debug, Clone, Copy, PartialEq, Eq, Structural)]
pub struct Limit {
    /// Ceiling on cumulative spend within the active window.
    pub limit: u128,
    /// Cumulative spend recorded since `time_set`.
    pub used: u128,
    /// When the quota window began, in seconds.
    pub time_set: u64,
}

/// The persisted state: a store of quota records keyed by denomination, and
/// the single ephemeral snapshot of holdings taken at the start of a cycle.
pub struct State {
    /// Quota records, one per denomination; denominations are unique.
    pub limits: Vec<(String, Limit)>,
    /// Holdings observed before the current batch, if a cycle is open.
    pub balances: Option<Vec<Coin>>,
}

/// The store entries as a mapping from denomination to record. A later entry
/// with the same denomination would shadow an earlier one; well-formed states
/// keep denominations unique, so each entry is the mapping at its key.
pub open spec fn limits_map_of(entries: Seq<(String, Limit)>) -> Map<Seq<char>, Limit>
    decreases entries.len(),
{
    if entries.len() == 0 {
        Map::empty()
    } else {
        limits_map_of(entries.drop_last()).insert(entries.last().0@, entries.last().1)
    }
}

/// No two store entries share a denomination.
pub open spec fn denoms_unique(entries: Seq<(String, Limit)>) -> bool {
    forall|i: int, j: int|
        0 <= i < j < entries.len() ==> entries[i].0@ != entries[j].0@
}

/// A set of holdings as a mapping from denomination to amount.
pub open spec fn coins_map_of(coins: Seq<Coin>) -> Map<Seq<char>, u128>
    decreases coins.len(),
{
    if coins.len() == 0 {
        Map::empty()
    } else {
        coins_map_of(coins.drop_last()).insert(coins.last().denom@, coins.last().amount)
    }
}

/// No two holdings share a denomination.
pub open spec fn coin_denoms_unique(coins: Seq<Coin>) -> bool {
    forall|i: int, j: int|
        0 <= i < j < coins.len() ==> coins[i].denom@ != coins[j].denom@
}

/// The amount held of `denom`, taking an absent denomination as zero.
pub open spec fn amount_of(coins: Seq<Coin>, denom: Seq<char>) -> u128 {
    if coins_map_of(coins).contains_key(denom) {
        coins_map_of(coins)[denom]
    } else {
        0
    }
}

impl State {
    /// The quota store as a mapping.
    pub open spec fn limits_map(self) -> Map<Seq<char>, Limit> {
        limits_map_of(self.limits@)
    }

    /// The snapshot slot, as the sequence of holdings it recorded.
    pub open spec fn snapshot(self) -> Option<Seq<Coin>> {
        match self.balances {
            Some(v) => Some(v@),
            None => None,
        }
    }

    /// Well-formedness: unique denominations in the store and in any
    /// recorded snapshot.
    pub open spec fn wf(self) -> bool {
        &&& denoms_unique(self.limits@)
        &&& match self.balances {
            Some(v) => coin_denoms_unique(v@),
            None => true,
        }
    }

    /// The record configured for `denom`, if any.
    pub open spec fn get_limit(self, denom: Seq<char>) -> Option<Limit> {
        if self.limits_map().contains_key(denom) {
            Some(self.limits_map()[denom])
        } else {
            None
        }
    }
}

/// Every entry of a store with unique denominations is what the mapping
/// holds at its denomination.
pub proof fn lemma_limits_map_entry(entries: Seq<(String, Limit)>, i: int)
    requires
        denoms_unique(entries),
        0 <= i < entries.len(),
    ensures
        limits_map_of(entries).contains_key(entries[i].0@),
        limits_map_of(entries)[entries[i].0@] == entries[i].1,
    decreases entries.len(),
{
    if i < entries.len() - 1 {
        lemma_limits_map_entry(entries.drop_last(), i);
    }
}

/// A denomination on no entry is absent from the mapping.
pub proof fn lemma_limits_map_absent(entries: Seq<(String, Limit)>, denom: Seq<char>)
    requires
        forall|i: int| 0 <= i < entries.len() ==> entries[i].0@ != denom,
    ensures
        !limits_map_of(entries).contains_key(denom),
    decreases entries.len(),
{
    if entries.len() > 0 {
        lemma_limits_map_absent(entries.drop_last(), denom);
    }
}

/// Replacing an entry by one with the same denomination updates the mapping
/// at that denomination alone.
pub proof fn lemma_limits_map_update(entries: Seq<(String, Limit)>, i: int, e: (String, Limit))
    requires
        denoms_unique(entries),
        0 <= i < entries.len(),
        e.0@ == entries[i].0@,
    ensures
        limits_map_of(entries.update(i, e)) == limits_map_of(entries).insert(e.0@, e.1),
    decreases entries.len(),
{
    let n = entries.len() as int;
    if i == n - 1 {
        assert(entries.update(i, e).drop_last() =~= entries.drop_last());
    } else {
        assert(entries.update(i, e).drop_last() =~= entries.drop_last().update(i, e));
        lemma_limits_map_update(entries.drop_last(), i, e);
        lemma_limits_map_entry(entries, i);
        assert(entries.last().0@ != e.0@);
        assert(limits_map_of(entries.update(i, e)) =~= limits_map_of(entries).insert(e.0@, e.1));
    }
}

/// Every holding of a set with unique denominations is what the mapping
/// holds at its denomination.
pub proof fn lemma_coins_map_entry(coins: Seq<Coin>, i: int)
    requires
        coin_denoms_unique(coins),
        0 <= i < coins.len(),
    ensures
        coins_map_of(coins).contains_key(coins[i].denom@),
        coins_map_of(coins)[coins[i].denom@] == coins[i].amount,
    decreases coins.len(),
{
    if i < coins.len() - 1 {
        lemma_coins_map_entry(coins.drop_last(), i);
    }
}

/// A denomination on no holding is absent from the mapping.
pub proof fn lemma_coins_map_absent(coins: Seq<Coin>, denom: Seq<char>)
    requires
        forall|i: int| 0 <= i < coins.len() ==> coins[i].denom@ != denom,
    ensures
        !coins_map_of(coins).contains_key(denom),
    decreases coins.len(),
{
    if coins.len() > 0 {
        lemma_coins_map_absent(coins.drop_last(), denom);
    }
}

/// Copy a set of holdings coin for coin.
#[verifier::loop_isolation(false)]
pub fn clone_coins(coins: &Vec<Coin>) -> (r: Vec<Coin>)
    ensures
        r@ == coins@,
{
    let mut r: Vec<Coin> = Vec::new();
    let mut k: usize = 0;
    while k < coins.len()
        invariant
            k <= coins@.len(),
            r@ == coins@.subrange(0, k as int),
        decreases coins@.len() - k,
    {
        let denom = coins[k].denom.clone();
        let amount = coins[k].amount;
        r.push(Coin { denom, amount });
        proof {
            assert(r@ =~= coins@.subrange(0, k as int + 1));
        }
        k += 1;
    }
    proof {
        assert(coins@.subrange(0, coins@.len() as int) =~= coins@);
    }
    r
}

/// Find the index of the record for `denom` in the store.
pub fn find_limit_index(entries: &Vec<(String, Limit)>, denom: &String) -> (r: Option<usize>)
    ensures
        match r {
            Some(i) => i < entries@.len() && entries@[i as int].0@ == denom@,
            None => forall|i: int| 0 <= i < entries@.len() ==> entries@[i].0@ != denom@,
        },
{
    let mut k: usize = 0;
    while k < entries.len()
        invariant
            k <= entries@.len(),
            forall|i: int| 0 <= i < k ==> entries@[i].0@ != denom@,
        decreases entries@.len() - k,
    {
        if entries[k].0 == *denom {
            return Some(k);
        }
        k += 1;
    }
    None
}

/// The amount held of `denom` in `coins`, an absent denomination counting
/// as zero.
pub fn find_coin_amount(coins: &Vec<Coin>, denom: &String) -> (r: u128)
    requires
        coin_denoms_unique(coins@),
    ensures
        r == amount_of(coins@, denom@),
{
    let mut k: usize = 0;
    while k < coins.len()
        invariant
            k <= coins@.len(),
            coin_denoms_unique(coins@),
            forall|i: int| 0 <= i < k ==> coins@[i].denom@ != denom@,
        decreases coins@.len() - k,
    {
        if coins[k].denom == *denom {
            proof {
                lemma_coins_map_entry(coins@, k as int);
            }
            return coins[k].amount;
        }
        k += 1;
    }
    proof {
        lemma_coins_map_absent(coins@, denom@);
    }
    0
}

} // verus!
