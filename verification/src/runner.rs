//! An in-memory stand-in for the orchestrating host: a block clock, the
//! gated account's holdings, and the contract state, driven one strictly
//! sequential cycle at a time. What a chain does around the contract —
//! running the batch of operations and undoing its effects when the contract
//! vetoes them — it does on plain values, so whole enforcement cycles can be
//! exercised and checked end to end.

use vstd::prelude::*;
use crate::contract::{execute_after_execute, execute_pre_execute, settle, Rejection};
use crate::error::ContractError;
use crate::msg::{Any, CallInfo};
use crate::state::{clone_coins, coin_denoms_unique, Coin, Limit, State};

verus! {

/// The test context: a clock, the account's holdings and the contract state.
pub struct AuraTestApp {
    /// The block clock, in seconds.
    pub time: u64,
    /// The contract's persisted state.
    pub state: State,
    /// The account's current holdings.
    pub balances: Vec<Coin>,
}

impl AuraTestApp {
    /// Between cycles: the contract state is well formed, the holdings form
    /// a mapping, and no cycle is open (the snapshot slot is empty).
    pub open spec fn wf(self) -> bool {
        &&& self.state.wf()
        &&& coin_denoms_unique(self.balances@)
        &&& self.state.balances is None
    }

    /// A fresh context: the clock at zero, no holdings, no quota configured.
    pub fn new() -> (app: AuraTestApp)
        ensures
            app.wf(),
            app.time == 0,
            app.state.limits@ == Seq::<(String, Limit)>::empty(),
            app.balances@ == Seq::<Coin>::empty(),
    {
        AuraTestApp {
            time: 0,
            state: State { limits: Vec::new(), balances: None },
            balances: Vec::new(),
        }
    }

    /// Advance the block clock by `seconds`.
    pub fn skip_time(&mut self, seconds: u64)
        requires
            old(self).time + seconds <= u64::MAX,
        ensures
            final(self).time == old(self).time + seconds,
            final(self).state == old(self).state,
            final(self).balances == old(self).balances,
    {
        self.time = self.time + seconds;
    }

    /// Replace the account's holdings, as a deposit arriving outside any
    /// cycle would.
    pub fn set_balances(&mut self, balances: Vec<Coin>)
        requires
            old(self).wf(),
            coin_denoms_unique(balances@),
        ensures
            final(self).wf(),
            final(self).balances@ == balances@,
            final(self).time == old(self).time,
            final(self).state == old(self).state,
    {
        self.balances = balances;
    }

    /// Run one full cycle at the current clock: snapshot the holdings, let
    /// the batch execute — its one modeled effect being that the holdings
    /// become `new_balances` — and submit the outcome to the contract. When
    /// the contract accepts, its updated records are exactly what
    /// [`settle`] yields and the new holdings stand; when it vetoes, the
    /// batch is undone: holdings and records stay as they were.
    pub fn execute_multiple(
        &mut self,
        msgs: Vec<Any>,
        call_info: CallInfo,
        new_balances: Vec<Coin>,
    ) -> (r: Result<(), ContractError>)
        requires
            old(self).wf(),
            coin_denoms_unique(new_balances@),
        ensures
            final(self).wf(),
            final(self).time == old(self).time,
            (match settle(
                old(self).state.limits_map(),
                old(self).balances@,
                new_balances@,
                old(self).time,
            ) {
                Ok(m) => {
                    &&& r is Ok
                    &&& final(self).state.limits_map() == m
                    &&& final(self).balances@ == new_balances@
                },
                Err(Rejection::LimitExceeded { denom }) => {
                    &&& r matches Err(ContractError::LimitExceeded(d)) && d@ == denom
                    &&& final(self).state.limits_map() == old(self).state.limits_map()
                    &&& final(self).balances@ == old(self).balances@
                },
                Err(Rejection::Overflow) => {
                    &&& r matches Err(ContractError::ArithmeticOverflow)
                    &&& final(self).state.limits_map() == old(self).state.limits_map()
                    &&& final(self).balances@ == old(self).balances@
                },
            }),
    {
        let snapshot = clone_coins(&self.balances);
        let pre_result = execute_pre_execute(
            &mut self.state,
            snapshot,
            msgs.clone(),
            call_info.clone(),
        );
        let _ = pre_result;
        self.balances = new_balances;
        match execute_after_execute(&mut self.state, &self.balances, self.time, msgs, call_info) {
            Ok(()) => Ok(()),
            Err(e) => {
                // The batch is undone: the holdings return to what the
                // snapshot recorded, and the slot is cleared for the next
                // cycle.
                let snap_back = self.state.balances.take();
                self.balances = snap_back.unwrap();
                Err(e)
            },
        }
    }
}

impl Default for AuraTestApp {
    /// The same fresh context as [`AuraTestApp::new`].
    fn default() -> (app: Self)
        ensures
            app.wf(),
            app.time == 0,
            app.state.limits@ == Seq::<(String, Limit)>::empty(),
            app.balances@ == Seq::<Coin>::empty(),
    {
        AuraTestApp::new()
    }
}

} // verus!
