//! The guarantees of the enforcement policy, stated and proved once and for
//! all over the spec functions that the engine's contracts are written in.

use vstd::prelude::*;
use crate::contract::{
    charge_outcome, settle, spent_of, window_expired, ChargeError, Rejection, SECOND_PER_HOUR,
};
use crate::state::{amount_of, Coin, Limit, State};

verus! {

/// The total of a sequence of spend amounts.
pub open spec fn sum_of(amounts: Seq<u128>) -> int
    decreases amounts.len(),
{
    if amounts.len() == 0 {
        0
    } else {
        amounts[0] + sum_of(amounts.subrange(1, amounts.len() as int))
    }
}

proof fn lemma_sum_nonneg(amounts: Seq<u128>)
    ensures
        sum_of(amounts) >= 0,
    decreases amounts.len(),
{
    if amounts.len() > 0 {
        lemma_sum_nonneg(amounts.subrange(1, amounts.len() as int));
    }
}

proof fn lemma_sum_split(amounts: Seq<u128>, k: int)
    requires
        0 <= k <= amounts.len(),
    ensures
        sum_of(amounts) == sum_of(amounts.subrange(0, k)) + sum_of(
            amounts.subrange(k, amounts.len() as int),
        ),
    decreases k,
{
    if k == 0 {
        assert(amounts.subrange(0, 0) =~= Seq::<u128>::empty());
        assert(amounts.subrange(0, amounts.len() as int) =~= amounts);
    } else {
        let rest = amounts.subrange(1, amounts.len() as int);
        lemma_sum_split(rest, k - 1);
        assert(amounts.subrange(0, k).subrange(1, k) =~= rest.subrange(0, k - 1));
        assert(amounts.subrange(k, amounts.len() as int) =~= rest.subrange(
            k - 1,
            rest.len() as int,
        ));
        assert(sum_of(amounts.subrange(0, k)) == amounts[0] + sum_of(rest.subrange(0, k - 1)));
    }
}

/// One asset's record run through a sequence of cycles: in cycle `i` the
/// asset's net spend is `spends[i]` while the clock reads `times[i]`. A
/// cycle with no net spend leaves the record alone, any other charges it,
/// and the run stops at the first refusal — exactly the treatment one asset
/// receives from [`settle`], cycle after cycle.
pub open spec fn run_spends(l: Limit, spends: Seq<u128>, times: Seq<u64>) -> Result<
    Limit,
    ChargeError,
>
    decreases spends.len(),
{
    if spends.len() == 0 {
        Ok(l)
    } else {
        let step = if spends[0] == 0 {
            Ok(l)
        } else {
            charge_outcome(l, spends[0], times[0])
        };
        match step {
            Ok(l2) => run_spends(
                l2,
                spends.subrange(1, spends.len() as int),
                times.subrange(1, times.len() as int),
            ),
            Err(e) => Err(e),
        }
    }
}

/// Law: over any cycles that all fall within one quota window, if the grand
/// total of the spends stays within the ceiling, every cycle is accepted,
/// `used` ends at the starting use plus that total, and the ceiling and the
/// window start never move.
pub proof fn lemma_within_ceiling_all_accepted(l: Limit, spends: Seq<u128>, times: Seq<u64>)
    requires
        spends.len() == times.len(),
        forall|i: int| 0 <= i < times.len() ==> times[i] <= l.time_set + SECOND_PER_HOUR,
        l.used + sum_of(spends) <= l.limit,
    ensures
        run_spends(l, spends, times) matches Ok(lf) && lf.used == l.used + sum_of(spends)
            && lf.limit == l.limit && lf.time_set == l.time_set,
    decreases spends.len(),
{
    if spends.len() > 0 {
        let s0 = spends[0];
        let rest_s = spends.subrange(1, spends.len() as int);
        let rest_t = times.subrange(1, times.len() as int);
        lemma_sum_nonneg(rest_s);
        if s0 == 0 {
            lemma_within_ceiling_all_accepted(l, rest_s, rest_t);
        } else {
            let l2 = Limit { limit: l.limit, used: (l.used + s0) as u128, time_set: l.time_set };
            assert(charge_outcome(l, s0, times[0]) == Ok::<Limit, ChargeError>(l2));
            lemma_within_ceiling_all_accepted(l2, rest_s, rest_t);
        }
    }
}

/// Law: under the same bounds, `used` equals the running total after each
/// cycle: the run of any prefix of the cycles ends with the starting use
/// plus that prefix's total.
pub proof fn lemma_within_ceiling_running_total(
    l: Limit,
    spends: Seq<u128>,
    times: Seq<u64>,
    k: int,
)
    requires
        spends.len() == times.len(),
        forall|i: int| 0 <= i < times.len() ==> times[i] <= l.time_set + SECOND_PER_HOUR,
        l.used + sum_of(spends) <= l.limit,
        0 <= k <= spends.len(),
    ensures
        run_spends(l, spends.subrange(0, k), times.subrange(0, k)) matches Ok(lk) && lk.used
            == l.used + sum_of(spends.subrange(0, k)),
{
    lemma_sum_split(spends, k);
    lemma_sum_nonneg(spends.subrange(k, spends.len() as int));
    lemma_within_ceiling_all_accepted(l, spends.subrange(0, k), times.subrange(0, k));
}

proof fn lemma_run_split(l: Limit, spends: Seq<u128>, times: Seq<u64>, j: int)
    requires
        spends.len() == times.len(),
        0 <= j <= spends.len(),
    ensures
        (match run_spends(l, spends.subrange(0, j), times.subrange(0, j)) {
            Ok(lj) => run_spends(l, spends, times) == run_spends(
                lj,
                spends.subrange(j, spends.len() as int),
                times.subrange(j, times.len() as int),
            ),
            Err(e) => run_spends(l, spends, times) == Err::<Limit, ChargeError>(e),
        }),
    decreases j,
{
    if j == 0 {
        assert(spends.subrange(0, 0) =~= Seq::<u128>::empty());
        assert(times.subrange(0, 0) =~= Seq::<u64>::empty());
        assert(spends.subrange(0, spends.len() as int) =~= spends);
        assert(times.subrange(0, times.len() as int) =~= times);
    } else {
        let rest_s = spends.subrange(1, spends.len() as int);
        let rest_t = times.subrange(1, times.len() as int);
        assert(spends.subrange(0, j).subrange(1, j) =~= rest_s.subrange(0, j - 1));
        assert(times.subrange(0, j).subrange(1, j) =~= rest_t.subrange(0, j - 1));
        assert(spends.subrange(j, spends.len() as int) =~= rest_s.subrange(
            j - 1,
            rest_s.len() as int,
        ));
        assert(times.subrange(j, times.len() as int) =~= rest_t.subrange(
            j - 1,
            rest_t.len() as int,
        ));
        let step = if spends[0] == 0 {
            Ok(l)
        } else {
            charge_outcome(l, spends[0], times[0])
        };
        match step {
            Ok(l2) => {
                lemma_run_split(l2, rest_s, rest_t, j - 1);
            },
            Err(_) => {},
        }
    }
}

/// Law: the first cycle whose spend would push the cumulative use strictly
/// above the ceiling stops the whole run as exceeded: with every cycle
/// within the window, a total that stays within the ceiling through cycle
/// `j - 1` but passes it at cycle `j` makes the run of the sequence end in
/// that refusal. (The refused cycle commits nothing: see
/// [`crate::contract::after_execute_post`].)
pub proof fn lemma_first_spend_over_ceiling_rejected(
    l: Limit,
    spends: Seq<u128>,
    times: Seq<u64>,
    j: int,
)
    requires
        spends.len() == times.len(),
        0 <= j < spends.len(),
        forall|i: int| 0 <= i < times.len() ==> times[i] <= l.time_set + SECOND_PER_HOUR,
        l.used + sum_of(spends.subrange(0, j)) <= l.limit,
        l.used + sum_of(spends.subrange(0, j + 1)) > l.limit,
    ensures
        run_spends(l, spends, times) == Err::<Limit, ChargeError>(ChargeError::Exceeded),
{
    let head = spends.subrange(0, j);
    let head_t = times.subrange(0, j);
    let tail = spends.subrange(j, spends.len() as int);
    let tail_t = times.subrange(j, times.len() as int);
    lemma_run_split(l, spends, times, j);
    lemma_within_ceiling_all_accepted(l, head, head_t);
    let lj = Limit {
        limit: l.limit,
        used: (l.used + sum_of(head)) as u128,
        time_set: l.time_set,
    };
    assert(run_spends(l, head, head_t) == Ok::<Limit, ChargeError>(lj));
    // the total through cycle j is the total before it plus its spend
    lemma_sum_split(spends.subrange(0, j + 1), j);
    assert(spends.subrange(0, j + 1).subrange(0, j) =~= head);
    let step = spends.subrange(0, j + 1).subrange(j, j + 1);
    assert(step =~= seq![spends[j]]);
    assert(sum_of(step.subrange(1, 1)) == 0) by {
        assert(step.subrange(1, 1) =~= Seq::<u128>::empty());
    }
    assert(sum_of(step) == step[0] + sum_of(step.subrange(1, 1)));
    assert(sum_of(step) == spends[j]);
    // so cycle j alone passes the ceiling, and its charge is refused
    assert(lj.used + spends[j] > lj.limit);
    lemma_over_ceiling_rejected(lj, spends[j], times[j]);
    assert(tail[0] == spends[j] && tail_t[0] == times[j]);
    assert(spends[j] > 0);
    assert(run_spends(lj, tail, tail_t) == Err::<Limit, ChargeError>(ChargeError::Exceeded));
}

/// Law: a cycle settled over a single-asset snapshot is exactly one step of
/// [`run_spends`]: the asset's record is charged with its net spend, a cycle
/// with no net spend changes nothing, and a refused charge rejects the cycle
/// with the matching reason.
pub proof fn lemma_settle_single_asset(
    limits: Map<Seq<char>, Limit>,
    c: Coin,
    post: Seq<Coin>,
    now: u64,
)
    requires
        limits.contains_key(c.denom@),
    ensures
        ({
            let spent = spent_of(c.amount, amount_of(post, c.denom@));
            let outcome = settle(limits, seq![c], post, now);
            if spent == 0 {
                outcome == Ok::<Map<Seq<char>, Limit>, Rejection>(limits)
            } else {
                match charge_outcome(limits[c.denom@], spent, now) {
                    Ok(l2) => outcome == Ok::<Map<Seq<char>, Limit>, Rejection>(
                        limits.insert(c.denom@, l2),
                    ),
                    Err(ChargeError::Exceeded) => outcome == Err::<
                        Map<Seq<char>, Limit>,
                        Rejection,
                    >(Rejection::LimitExceeded { denom: c.denom@ }),
                    Err(ChargeError::Overflow) => outcome == Err::<
                        Map<Seq<char>, Limit>,
                        Rejection,
                    >(Rejection::Overflow),
                }
            }
        }),
{
    reveal_with_fuel(settle, 2);
    assert(seq![c].subrange(1, 1) =~= Seq::<Coin>::empty());
}

/// Law: within the active window, a spend that would push the cumulative
/// use strictly above the ceiling is refused as exceeding it. (The engine
/// then leaves every record unchanged: see
/// [`crate::contract::after_execute_post`].)
pub proof fn lemma_over_ceiling_rejected(l: Limit, amount: u128, now: u64)
    requires
        now <= l.time_set + SECOND_PER_HOUR,
        l.used + amount > l.limit,
    ensures
        charge_outcome(l, amount, now) == Err::<Limit, ChargeError>(ChargeError::Exceeded),
{
}

/// Law: once the window has elapsed, a spend of any size that still fits
/// the counter is accepted whatever the ceiling says; the full amount is
/// added to `used`, and the window start never moves, so the window stays
/// elapsed at every later time.
pub proof fn lemma_expired_window_accepts(l: Limit, amount: u128, now: u64)
    requires
        window_expired(l, now),
        l.used + amount <= u128::MAX,
    ensures
        charge_outcome(l, amount, now) matches Ok(l2) && l2.used == l.used + amount && l2.limit
            == l.limit && l2.time_set == l.time_set && forall|later: u64|
            later >= now ==> window_expired(l2, later),
{
}

/// Law: once the window has elapsed it never recovers, so every subsequent
/// cycle is accepted no matter how large its spend, as long as the counter
/// can still record the total: with every cycle time at or past `now` and
/// the grand total still fitting the counter, the run accepts every cycle,
/// `used` ends at the start plus that total with no ceiling in its way, and
/// the window start never moves.
pub proof fn lemma_expired_window_accepts_all(
    l: Limit,
    spends: Seq<u128>,
    times: Seq<u64>,
    now: u64,
)
    requires
        spends.len() == times.len(),
        window_expired(l, now),
        forall|i: int| 0 <= i < times.len() ==> times[i] >= now,
        l.used + sum_of(spends) <= u128::MAX,
    ensures
        run_spends(l, spends, times) matches Ok(lf) && lf.used == l.used + sum_of(spends)
            && lf.limit == l.limit && lf.time_set == l.time_set,
    decreases spends.len(),
{
    if spends.len() > 0 {
        let s0 = spends[0];
        let rest_s = spends.subrange(1, spends.len() as int);
        let rest_t = times.subrange(1, times.len() as int);
        lemma_sum_nonneg(rest_s);
        if s0 == 0 {
            lemma_expired_window_accepts_all(l, rest_s, rest_t, now);
        } else {
            let l2 = Limit { limit: l.limit, used: (l.used + s0) as u128, time_set: l.time_set };
            assert(window_expired(l, times[0]));
            assert(charge_outcome(l, s0, times[0]) == Ok::<Limit, ChargeError>(l2));
            lemma_expired_window_accepts_all(l2, rest_s, rest_t, now);
        }
    }
}

/// Law: within the active window a spend of exactly the remaining allowance
/// is accepted and fills the ceiling, while one unit more is refused.
pub proof fn lemma_boundary_exact(l: Limit, now: u64)
    requires
        now <= l.time_set + SECOND_PER_HOUR,
        l.used <= l.limit,
    ensures
        charge_outcome(l, (l.limit - l.used) as u128, now) matches Ok(l2) && l2.used == l.limit,
        l.limit - l.used + 1 <= u128::MAX ==> charge_outcome(
            l,
            (l.limit - l.used + 1) as u128,
            now,
        ) == Err::<Limit, ChargeError>(ChargeError::Exceeded),
{
}

/// Law: a spend too large to record is refused, never a crash: as an
/// overflow once the window has elapsed, and as exceeding the ceiling while
/// the window is active (the sum then also passes the ceiling, which is what
/// the record is charged against first).
pub proof fn lemma_overflow_reported(l: Limit, amount: u128, now: u64)
    requires
        l.used + amount > u128::MAX,
    ensures
        charge_outcome(l, amount, now) is Err,
        window_expired(l, now) ==> charge_outcome(l, amount, now) == Err::<Limit, ChargeError>(
            ChargeError::Overflow,
        ),
        !window_expired(l, now) ==> charge_outcome(l, amount, now) == Err::<Limit, ChargeError>(
            ChargeError::Exceeded,
        ),
{
}

/// Law: settling a cycle never adds or removes a record and never changes a
/// record's ceiling or window start; cumulative use never shrinks.
pub proof fn lemma_settle_preserves_records(
    limits: Map<Seq<char>, Limit>,
    pre: Seq<Coin>,
    post: Seq<Coin>,
    now: u64,
)
    ensures
        settle(limits, pre, post, now) matches Ok(m) ==> {
            &&& m.dom() == limits.dom()
            &&& forall|d: Seq<char>| #[trigger]
                limits.contains_key(d) ==> m[d].limit == limits[d].limit && m[d].time_set
                    == limits[d].time_set && m[d].used >= limits[d].used
        },
    decreases pre.len(),
{
    if pre.len() > 0 {
        let c = pre[0];
        let rest = pre.subrange(1, pre.len() as int);
        let spent = spent_of(c.amount, amount_of(post, c.denom@));
        if limits.contains_key(c.denom@) && spent > 0 {
            match charge_outcome(limits[c.denom@], spent, now) {
                Ok(l2) => {
                    lemma_settle_preserves_records(limits.insert(c.denom@, l2), rest, post, now);
                    assert(limits.insert(c.denom@, l2).dom() =~= limits.dom());
                },
                Err(_) => {},
            }
        } else {
            lemma_settle_preserves_records(limits, rest, post, now);
        }
    }
}

/// Law: reading a quota is pure. The contract of
/// [`crate::contract::query_limit`] pins its result as a function of the
/// state alone, so two reads of the same state with no write between them
/// answer alike.
pub proof fn lemma_query_is_pure(
    s: State,
    denom: Seq<char>,
    r1: Option<Limit>,
    r2: Option<Limit>,
)
    requires
        r1 == s.get_limit(denom),
        r2 == s.get_limit(denom),
    ensures
        r1 == r2,
{
}

} // verus!
