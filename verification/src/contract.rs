//! The enforcement engine.
//!
//! A cycle is a `PreExecute` call, the opaque batch of operations, then an
//! `AfterExecute` call. `execute_pre_execute` records the holdings observed
//! before the batch; `execute_after_execute` diffs them against the holdings
//! observed after it, charges every net decrease against that asset's quota
//! record, and either accepts the cycle (committing the updated records and
//! consuming the snapshot) or rejects it, leaving all state unchanged.
//!
//! The meaning of an `AfterExecute` call is the spec function [`settle`]: it
//! walks the snapshot in order and, for the first asset whose charge fails,
//! reports why; otherwise it yields the updated store.

use vstd::prelude::*;
use crate::error::ContractError;
use crate::msg::{Any, CallInfo, InstantiateMsg, QueryMsg, SudoMsg};
use crate::state::{
    amount_of, coin_denoms_unique, denoms_unique, find_coin_amount, find_limit_index,
    lemma_limits_map_absent, lemma_limits_map_entry, lemma_limits_map_update, limits_map_of,
    Coin, Limit, State,
};

verus! {

/// Length of a quota window, in seconds.
pub const SECOND_PER_HOUR: u64 = 3600;

/// Whether the quota window of `l` has elapsed at time `now`: strictly more
/// than a window length has passed since the record was set. Records never
/// advance `time_set`, so once this holds for an asset it holds forever and
/// the ceiling no longer restricts it.
pub open spec fn window_expired(l: Limit, now: u64) -> bool {
    now > l.time_set + SECOND_PER_HOUR
}

/// Whether a spend of `amount` is allowed against `l` at time `now`: always
/// once the window has elapsed, and otherwise exactly when the cumulative
/// use would stay within the ceiling.
pub open spec fn spend_allowed(l: Limit, amount: u128, now: u64) -> bool {
    window_expired(l, now) || (amount <= l.limit && l.used <= l.limit - amount)
}

/// Why charging a single asset failed.
pub enum ChargeError {
    /// The spend would pass the ceiling while the window is active.
    Exceeded,
    /// The spend is allowed but recording it would overflow `used`.
    Overflow,
}

/// Charge a spend of `amount` against record `l` at time `now`: the updated
/// record on acceptance, or why it was refused. Acceptance always adds the
/// full amount to `used`, also when it came from the elapsed-window branch,
/// and never touches `limit` or `time_set`.
pub open spec fn charge_outcome(l: Limit, amount: u128, now: u64) -> Result<Limit, ChargeError> {
    if !spend_allowed(l, amount, now) {
        Err(ChargeError::Exceeded)
    } else if l.used + amount > u128::MAX {
        Err(ChargeError::Overflow)
    } else {
        Ok(Limit { limit: l.limit, used: (l.used + amount) as u128, time_set: l.time_set })
    }
}

/// The net spend of one asset over a cycle: how far its holding fell.
/// An increase counts as no spend.
pub open spec fn spent_of(pre_amount: u128, post_amount: u128) -> u128 {
    if pre_amount > post_amount {
        (pre_amount - post_amount) as u128
    } else {
        0
    }
}

/// Why a whole cycle was rejected.
pub enum Rejection {
    /// The named denomination's charge passed its ceiling.
    LimitExceeded { denom: Seq<char> },
    /// Recording an accepted charge would overflow its record.
    Overflow,
}

/// The outcome of an `AfterExecute` call: walk the snapshotted holdings
/// `pre` in order; for each asset that has a quota record and a positive net
/// spend, charge the record; stop at the first refusal, naming the asset if
/// its ceiling was passed. If every charge is accepted, the result is the
/// store with all updated records.
pub open spec fn settle(
    limits: Map<Seq<char>, Limit>,
    pre: Seq<Coin>,
    post: Seq<Coin>,
    now: u64,
) -> Result<Map<Seq<char>, Limit>, Rejection>
    decreases pre.len(),
{
    if pre.len() == 0 {
        Ok(limits)
    } else {
        let c = pre[0];
        let rest = pre.subrange(1, pre.len() as int);
        let spent = spent_of(c.amount, amount_of(post, c.denom@));
        if limits.contains_key(c.denom@) && spent > 0 {
            match charge_outcome(limits[c.denom@], spent, now) {
                Ok(l2) => settle(limits.insert(c.denom@, l2), rest, post, now),
                Err(ChargeError::Exceeded) => Err(Rejection::LimitExceeded { denom: c.denom@ }),
                Err(ChargeError::Overflow) => Err(Rejection::Overflow),
            }
        } else {
            settle(limits, rest, post, now)
        }
    }
}

/// How a `PreExecute` call relates the state before (`prev`) to the state
/// after (`next`): the queried holdings fill the snapshot slot, discarding
/// whatever was there, and nothing else changes.
pub open spec fn pre_execute_post(
    prev: State,
    next: State,
    balances: Seq<Coin>,
    r: Result<(), ContractError>,
) -> bool {
    &&& r is Ok
    &&& next.limits == prev.limits
    &&& next.snapshot() == Some(balances)
}

/// How an `AfterExecute` call relates the state before (`prev`) to the state
/// after (`next`), given the holdings `post_balances` queried after the
/// batch. Without a snapshot the call is a protocol violation and changes
/// nothing. With one, the call returns and commits exactly what [`settle`]
/// says: on acceptance the store holds the updated records (same assets, in
/// the same order) and the snapshot is consumed; on any rejection the state
/// is exactly as it was.
pub open spec fn after_execute_post(
    prev: State,
    next: State,
    post_balances: Seq<Coin>,
    now: u64,
    r: Result<(), ContractError>,
) -> bool {
    match prev.snapshot() {
        None => {
            &&& r matches Err(ContractError::MissingSnapshot)
            &&& next == prev
        },
        Some(pre_balances) => match settle(prev.limits_map(), pre_balances, post_balances, now) {
            Ok(m) => {
                &&& r is Ok
                &&& next.limits_map() == m
                &&& next.snapshot() is None
                &&& next.limits@.len() == prev.limits@.len()
                &&& forall|i: int|
                    0 <= i < prev.limits@.len() ==> next.limits@[i].0@ == prev.limits@[i].0@
            },
            Err(Rejection::LimitExceeded { denom }) => {
                &&& r matches Err(ContractError::LimitExceeded(d)) && d@ == denom
                &&& next == prev
            },
            Err(Rejection::Overflow) => {
                &&& r matches Err(ContractError::ArithmeticOverflow)
                &&& next == prev
            },
        },
    }
}

/// Whether `amount` may be spent against `limit` at time `block_time`.
pub fn check_limit(limit: Limit, amount: u128, block_time: u64) -> (r: bool)
    ensures
        r == spend_allowed(limit, amount, block_time),
{
    // Once the window has elapsed, the spend is no longer restricted. When
    // the window end does not fit a u64, no u64 clock can be past it.
    let expired = match limit.time_set.checked_add(SECOND_PER_HOUR) {
        Some(window_end) => block_time > window_end,
        None => false,
    };
    if expired {
        return true;
    }
    if limit.limit < amount {
        return false;
    }
    if limit.limit - amount < limit.used {
        return false;
    }
    true
}

/// Copy a quota store entry for entry.
#[verifier::loop_isolation(false)]
fn clone_limits(entries: &Vec<(String, Limit)>) -> (r: Vec<(String, Limit)>)
    ensures
        r@ == entries@,
{
    let mut r: Vec<(String, Limit)> = Vec::new();
    let mut k: usize = 0;
    while k < entries.len()
        invariant
            k <= entries@.len(),
            r@ == entries@.subrange(0, k as int),
        decreases entries@.len() - k,
    {
        let denom = entries[k].0.clone();
        let record = entries[k].1;
        r.push((denom, record));
        proof {
            assert(r@ =~= entries@.subrange(0, k as int + 1));
        }
        k += 1;
    }
    proof {
        assert(entries@.subrange(0, entries@.len() as int) =~= entries@);
    }
    r
}

/// Configure the quota of one asset: a fresh record with nothing used and a
/// window starting now. An asset already configured gets a fresh record in
/// place; others are untouched, as is any snapshot.
pub fn instantiate(state: &mut State, msg: InstantiateMsg, now: u64) -> (r: Result<(), ContractError>)
    requires
        old(state).wf(),
    ensures
        final(state).wf(),
        r is Ok,
        final(state).limits_map() == old(state).limits_map().insert(
            msg.limit.denom@,
            Limit { limit: msg.limit.amount, used: 0, time_set: now },
        ),
        final(state).limits@.len() >= old(state).limits@.len(),
        final(state).balances == old(state).balances,
{
    let record = Limit { limit: msg.limit.amount, used: 0, time_set: now };
    match find_limit_index(&state.limits, &msg.limit.denom) {
        Some(i) => {
            let ghost before = state.limits@;
            state.limits[i] = (msg.limit.denom, record);
            proof {
                lemma_limits_map_update(before, i as int, (msg.limit.denom, record));
                assert(denoms_unique(state.limits@));
            }
        },
        None => {
            let ghost before = state.limits@;
            state.limits.push((msg.limit.denom, record));
            proof {
                assert(state.limits@.drop_last() =~= before);
                assert(denoms_unique(state.limits@));
            }
        },
    }
    Ok(())
}

/// The pre-phase of a cycle: record the holdings queried before the batch in
/// the snapshot slot. The batch itself and its metadata are not read.
pub fn execute_pre_execute(
    state: &mut State,
    balances: Vec<Coin>,
    _msgs: Vec<Any>,
    _call_info: CallInfo,
) -> (r: Result<(), ContractError>)
    requires
        old(state).wf(),
        coin_denoms_unique(balances@),
    ensures
        final(state).wf(),
        pre_execute_post(*old(state), *final(state), balances@, r),
{
    state.balances = Some(balances);
    Ok(())
}

/// The post-phase of a cycle: diff the holdings queried after the batch
/// against the snapshot and accept or reject, as [`after_execute_post`]
/// states. The batch itself and its metadata are not read.
#[verifier::loop_isolation(false)]
pub fn execute_after_execute(
    state: &mut State,
    after_balances: &Vec<Coin>,
    now: u64,
    _msgs: Vec<Any>,
    _call_info: CallInfo,
) -> (r: Result<(), ContractError>)
    requires
        old(state).wf(),
        coin_denoms_unique(after_balances@),
    ensures
        final(state).wf(),
        after_execute_post(*old(state), *final(state), after_balances@, now, r),
{
    if state.balances.is_none() {
        return Err(ContractError::MissingSnapshot);
    }
    let pre = state.balances.as_ref().unwrap();

    let ghost limits0 = state.limits@;
    let ghost m0 = limits_map_of(limits0);
    let ghost pre_seq = pre@;
    let ghost post_seq = after_balances@;

    let mut new_limits = clone_limits(&state.limits);
    proof {
        assert(pre_seq.subrange(0, pre_seq.len() as int) =~= pre_seq);
    }
    let mut k: usize = 0;
    while k < pre.len()
        invariant
            k <= pre_seq.len(),
            new_limits@.len() == limits0.len(),
            forall|i: int| 0 <= i < limits0.len() ==> new_limits@[i].0@ == limits0[i].0@,
            denoms_unique(new_limits@),
            settle(m0, pre_seq, post_seq, now) == settle(
                limits_map_of(new_limits@),
                pre_seq.subrange(k as int, pre_seq.len() as int),
                post_seq,
                now,
            ),
        decreases pre_seq.len() - k,
    {
        let c = &pre[k];
        let ghost at_k = pre_seq.subrange(k as int, pre_seq.len() as int);
        let ghost after_k = pre_seq.subrange(k as int + 1, pre_seq.len() as int);
        proof {
            assert(at_k[0] == pre_seq[k as int]);
            assert(at_k.subrange(1, at_k.len() as int) =~= after_k);
        }
        match find_limit_index(&new_limits, &c.denom) {
            Some(i) => {
                let post_amount = find_coin_amount(after_balances, &c.denom);
                if c.amount > post_amount {
                    let spent = c.amount - post_amount;
                    let record = new_limits[i].1;
                    proof {
                        lemma_limits_map_entry(new_limits@, i as int);
                    }
                    if !check_limit(record, spent, now) {
                        return Err(ContractError::LimitExceeded(c.denom.clone()));
                    }
                    match record.used.checked_add(spent) {
                        Some(new_used) => {
                            let ghost before = new_limits@;
                            let denom_copy = new_limits[i].0.clone();
                            let updated = Limit {
                                limit: record.limit,
                                used: new_used,
                                time_set: record.time_set,
                            };
                            new_limits[i] = (denom_copy, updated);
                            proof {
                                lemma_limits_map_update(before, i as int, (denom_copy, updated));
                            }
                        },
                        None => {
                            return Err(ContractError::ArithmeticOverflow);
                        },
                    }
                }
            },
            None => {
                proof {
                    lemma_limits_map_absent(new_limits@, c.denom@);
                }
            },
        }
        k += 1;
    }
    proof {
        assert(pre_seq.subrange(pre_seq.len() as int, pre_seq.len() as int) =~= Seq::<Coin>::empty());
    }
    state.limits = new_limits;
    state.balances = None;
    Ok(())
}

/// Dispatch a host invocation to the matching phase. `balances` are the
/// holdings the caller queried for the account at this moment; `now` is the
/// current time in seconds.
pub fn sudo(
    state: &mut State,
    balances: Vec<Coin>,
    now: u64,
    msg: SudoMsg,
) -> (r: Result<(), ContractError>)
    requires
        old(state).wf(),
        coin_denoms_unique(balances@),
    ensures
        final(state).wf(),
        (msg is PreExecute ==> pre_execute_post(*old(state), *final(state), balances@, r)),
        (msg is AfterExecute ==> after_execute_post(*old(state), *final(state), balances@, now, r)),
{
    match msg {
        SudoMsg::PreExecute { msgs, call_info } => {
            execute_pre_execute(state, balances, msgs, call_info)
        },
        SudoMsg::AfterExecute { msgs, call_info } => {
            execute_after_execute(state, &balances, now, msgs, call_info)
        },
    }
}

/// Answer a query: the quota record configured for the asked denomination,
/// if any. A pure read.
pub fn query(state: &State, msg: QueryMsg) -> (r: Option<Limit>)
    requires
        state.wf(),
    ensures
        (match msg {
            QueryMsg::GetLimt { denom } => r == state.get_limit(denom@),
        }),
{
    match msg {
        QueryMsg::GetLimt { denom } => query_limit(state, denom),
    }
}

/// The quota record configured for `denom`, if any. A pure read: the result
/// is a function of the state alone, so two queries with no write between
/// them answer alike.
pub fn query_limit(state: &State, denom: String) -> (r: Option<Limit>)
    requires
        state.wf(),
    ensures
        r == state.get_limit(denom@),
{
    match find_limit_index(&state.limits, &denom) {
        Some(i) => {
            proof {
                lemma_limits_map_entry(state.limits@, i as int);
            }
            Some(state.limits[i].1)
        },
        None => {
            proof {
                lemma_limits_map_absent(state.limits@, denom@);
            }
            None
        },
    }
}

} // verus!
