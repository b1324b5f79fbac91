//! End-to-end checks of the enforcement cycle, driven through the in-memory
//! test context.

use spend_limit::contract::{check_limit, execute_after_execute, instantiate, query, query_limit, sudo};
use spend_limit::error::ContractError;
use spend_limit::msg::{CallInfo, InstantiateMsg, QueryMsg, SudoMsg};
use spend_limit::runner::AuraTestApp;
use spend_limit::state::{Coin, Limit, State};

fn coin(denom: &str, amount: u128) -> Coin {
    Coin { denom: denom.to_string(), amount }
}

fn call_info() -> CallInfo {
    CallInfo {
        fee: vec![],
        gas: 2_000_000,
        fee_payer: String::new(),
        fee_granter: String::new(),
    }
}

fn limited_app(denom: &str, ceiling: u128, now: u64, holdings: u128) -> AuraTestApp {
    let mut app = AuraTestApp::new();
    if now > 0 {
        app.skip_time(now);
    }
    let r = instantiate(
        &mut app.state,
        InstantiateMsg { limit: coin(denom, ceiling) },
        app.time,
    );
    assert!(r.is_ok());
    app.set_balances(vec![coin(denom, holdings)]);
    app
}

fn used_of(app: &AuraTestApp, denom: &str) -> u128 {
    query_limit(&app.state, denom.to_string()).expect("no quota record").used
}

#[test]
fn scenario_spend_limit_lifecycle() {
    // initialize("uaura", 10000, t0) with plenty held
    let mut app = limited_app("uaura", 10_000, 0, 10_000_000);

    // spend 5000 at t0: accepted, used = 5000
    let r = app.execute_multiple(vec![], call_info(), vec![coin("uaura", 9_995_000)]);
    assert!(r.is_ok());
    assert_eq!(used_of(&app, "uaura"), 5_000);
    assert_eq!(app.balances, vec![coin("uaura", 9_995_000)]);

    // spend 5001 at t0+1s: 5000 + 5001 = 10001 > 10000, rejected; nothing
    // committed, and the orchestrator rolls the holdings back
    app.skip_time(1);
    let r = app.execute_multiple(vec![], call_info(), vec![coin("uaura", 9_989_999)]);
    assert_eq!(r, Err(ContractError::LimitExceeded("uaura".to_string())));
    assert_eq!(used_of(&app, "uaura"), 5_000);
    assert_eq!(app.balances, vec![coin("uaura", 9_995_000)]);

    // at exactly one window length since t0 the window is still active
    app.skip_time(3_599);
    let r = app.execute_multiple(vec![], call_info(), vec![coin("uaura", 9_989_999)]);
    assert_eq!(r, Err(ContractError::LimitExceeded("uaura".to_string())));
    assert_eq!(used_of(&app, "uaura"), 5_000);

    // one second past the window it is expired: the same spend is accepted
    // regardless of the ceiling, and used grows past it
    app.skip_time(1);
    let r = app.execute_multiple(vec![], call_info(), vec![coin("uaura", 9_989_999)]);
    assert!(r.is_ok());
    assert_eq!(used_of(&app, "uaura"), 10_001);
    assert_eq!(app.balances, vec![coin("uaura", 9_989_999)]);

    // the window start never advances
    let record = query_limit(&app.state, "uaura".to_string()).unwrap();
    assert_eq!(record.time_set, 0);
    assert_eq!(record.limit, 10_000);
}

#[test]
fn running_total_tracked_within_ceiling() {
    let mut app = limited_app("uaura", 10_000, 0, 100_000);
    let spends: [u128; 4] = [1_000, 2_000, 3_000, 4_000];
    let mut held: u128 = 100_000;
    let mut total: u128 = 0;
    for s in spends {
        held -= s;
        total += s;
        let r = app.execute_multiple(vec![], call_info(), vec![coin("uaura", held)]);
        assert!(r.is_ok());
        assert_eq!(used_of(&app, "uaura"), total);
    }
    // the last spend filled the ceiling exactly
    assert_eq!(used_of(&app, "uaura"), 10_000);
}

#[test]
fn exact_remainder_accepted_one_more_rejected() {
    let mut app = limited_app("uaura", 100, 0, 1_000);
    let r = app.execute_multiple(vec![], call_info(), vec![coin("uaura", 940)]);
    assert!(r.is_ok());
    assert_eq!(used_of(&app, "uaura"), 60);

    // one unit above the remaining allowance: rejected
    let r = app.execute_multiple(vec![], call_info(), vec![coin("uaura", 899)]);
    assert_eq!(r, Err(ContractError::LimitExceeded("uaura".to_string())));
    assert_eq!(used_of(&app, "uaura"), 60);

    // exactly the remaining allowance: accepted, ceiling filled
    let r = app.execute_multiple(vec![], call_info(), vec![coin("uaura", 900)]);
    assert!(r.is_ok());
    assert_eq!(used_of(&app, "uaura"), 100);

    // and now even a single unit is rejected
    let r = app.execute_multiple(vec![], call_info(), vec![coin("uaura", 899)]);
    assert_eq!(r, Err(ContractError::LimitExceeded("uaura".to_string())));
    assert_eq!(used_of(&app, "uaura"), 100);
}

#[test]
fn expired_window_accepts_without_bound() {
    let mut app = limited_app("uaura", 10, 0, u128::MAX);
    app.skip_time(3_601);

    let r = app.execute_multiple(vec![], call_info(), vec![coin("uaura", u128::MAX - 1_000_000)]);
    assert!(r.is_ok());
    assert_eq!(used_of(&app, "uaura"), 1_000_000);

    let r = app.execute_multiple(vec![], call_info(), vec![coin("uaura", u128::MAX - 6_000_000)]);
    assert!(r.is_ok());
    assert_eq!(used_of(&app, "uaura"), 6_000_000);

    let record = query_limit(&app.state, "uaura".to_string()).unwrap();
    assert_eq!(record.time_set, 0);
    assert_eq!(record.limit, 10);
}

#[test]
fn overflow_reported_not_crash() {
    let mut app = limited_app("uaura", 10, 0, 1_000);
    // use one unit while the window is active
    let r = app.execute_multiple(vec![], call_info(), vec![coin("uaura", 999)]);
    assert!(r.is_ok());
    assert_eq!(used_of(&app, "uaura"), 1);

    // after expiry, a spend near the integer maximum is accepted by the
    // window branch but cannot be recorded: a typed error, no crash
    app.skip_time(4_000);
    app.set_balances(vec![coin("uaura", u128::MAX)]);
    let r = app.execute_multiple(vec![], call_info(), vec![coin("uaura", 0)]);
    assert_eq!(r, Err(ContractError::ArithmeticOverflow));
    assert_eq!(used_of(&app, "uaura"), 1);
    assert_eq!(app.balances, vec![coin("uaura", u128::MAX)]);
}

#[test]
fn near_max_spend_within_window_is_limit_exceeded() {
    let mut app = limited_app("uaura", 10_000, 0, u128::MAX);
    let r = app.execute_multiple(vec![], call_info(), vec![coin("uaura", 0)]);
    assert_eq!(r, Err(ContractError::LimitExceeded("uaura".to_string())));
    assert_eq!(used_of(&app, "uaura"), 0);
}

#[test]
fn rejection_commits_nothing_across_assets() {
    let mut app = AuraTestApp::new();
    let r = instantiate(&mut app.state, InstantiateMsg { limit: coin("uaura", 1_000) }, 0);
    assert!(r.is_ok());
    let r = instantiate(&mut app.state, InstantiateMsg { limit: coin("uatom", 10) }, 0);
    assert!(r.is_ok());
    app.set_balances(vec![coin("uaura", 500), coin("uatom", 500)]);

    // uaura's spend of 100 fits; uatom's spend of 50 passes its ceiling
    let r = app.execute_multiple(
        vec![],
        call_info(),
        vec![coin("uaura", 400), coin("uatom", 450)],
    );
    assert_eq!(r, Err(ContractError::LimitExceeded("uatom".to_string())));
    assert_eq!(used_of(&app, "uaura"), 0);
    assert_eq!(used_of(&app, "uatom"), 0);
    assert_eq!(app.balances, vec![coin("uaura", 500), coin("uatom", 500)]);
}

#[test]
fn unconfigured_asset_is_unrestricted() {
    let mut app = limited_app("uaura", 100, 0, 1_000);
    app.set_balances(vec![coin("uaura", 1_000), coin("other", 1_000_000)]);
    let r = app.execute_multiple(
        vec![],
        call_info(),
        vec![coin("uaura", 1_000), coin("other", 0)],
    );
    assert!(r.is_ok());
    assert_eq!(used_of(&app, "uaura"), 0);
    assert_eq!(query_limit(&app.state, "other".to_string()), None);
}

#[test]
fn deposits_are_not_penalized() {
    let mut app = limited_app("uaura", 100, 0, 1_000);
    // the holding grows: no spend is recorded
    let r = app.execute_multiple(vec![], call_info(), vec![coin("uaura", 2_000)]);
    assert!(r.is_ok());
    assert_eq!(used_of(&app, "uaura"), 0);
}

#[test]
fn asset_gone_from_holdings_counts_in_full() {
    let mut app = limited_app("uaura", 100, 0, 50);
    // the denomination vanishes from the after-holdings: all 50 were spent
    let r = app.execute_multiple(vec![], call_info(), vec![]);
    assert!(r.is_ok());
    assert_eq!(used_of(&app, "uaura"), 50);
}

#[test]
fn after_without_before_is_missing_snapshot() {
    let mut state = State { limits: vec![], balances: None };
    let balances = vec![coin("uaura", 1_000)];
    let r = execute_after_execute(&mut state, &balances, 0, vec![], call_info());
    assert_eq!(r, Err(ContractError::MissingSnapshot));
}

#[test]
fn sudo_dispatches_both_phases() {
    let mut state = State { limits: vec![], balances: None };
    let r = instantiate(&mut state, InstantiateMsg { limit: coin("uaura", 100) }, 0);
    assert!(r.is_ok());

    let r = sudo(
        &mut state,
        vec![coin("uaura", 500)],
        0,
        SudoMsg::PreExecute { msgs: vec![], call_info: call_info() },
    );
    assert!(r.is_ok());

    let r = sudo(
        &mut state,
        vec![coin("uaura", 450)],
        0,
        SudoMsg::AfterExecute { msgs: vec![], call_info: call_info() },
    );
    assert!(r.is_ok());
    assert_eq!(
        query_limit(&state, "uaura".to_string()),
        Some(Limit { limit: 100, used: 50, time_set: 0 })
    );

    // the snapshot was consumed: a second after-call is a protocol violation
    let r = sudo(
        &mut state,
        vec![coin("uaura", 450)],
        0,
        SudoMsg::AfterExecute { msgs: vec![], call_info: call_info() },
    );
    assert_eq!(r, Err(ContractError::MissingSnapshot));
}

#[test]
fn a_new_before_overwrites_the_snapshot() {
    let mut state = State { limits: vec![], balances: None };
    let r = instantiate(&mut state, InstantiateMsg { limit: coin("uaura", 100) }, 0);
    assert!(r.is_ok());

    let r = sudo(
        &mut state,
        vec![coin("uaura", 1_000)],
        0,
        SudoMsg::PreExecute { msgs: vec![], call_info: call_info() },
    );
    assert!(r.is_ok());
    // a second before-call discards the first snapshot without warning
    let r = sudo(
        &mut state,
        vec![coin("uaura", 500)],
        0,
        SudoMsg::PreExecute { msgs: vec![], call_info: call_info() },
    );
    assert!(r.is_ok());

    // the diff runs against the second snapshot: 500 - 450 = 50
    let r = sudo(
        &mut state,
        vec![coin("uaura", 450)],
        0,
        SudoMsg::AfterExecute { msgs: vec![], call_info: call_info() },
    );
    assert!(r.is_ok());
    assert_eq!(used_of_state(&state, "uaura"), 50);
}

fn used_of_state(state: &State, denom: &str) -> u128 {
    query_limit(state, denom.to_string()).expect("no quota record").used
}

#[test]
fn query_is_a_pure_read() {
    let app = limited_app("uaura", 10_000, 0, 0);
    let first = query(&app.state, QueryMsg::GetLimt { denom: "uaura".to_string() });
    let second = query(&app.state, QueryMsg::GetLimt { denom: "uaura".to_string() });
    assert_eq!(first, second);
    assert_eq!(first, Some(Limit { limit: 10_000, used: 0, time_set: 0 }));
    assert_eq!(query(&app.state, QueryMsg::GetLimt { denom: "nosuch".to_string() }), None);
}

#[test]
fn check_limit_window_boundary() {
    let record = Limit { limit: 10_000, used: 5_000, time_set: 100 };
    // active window: the remaining allowance is the line
    assert!(check_limit(record, 5_000, 100));
    assert!(!check_limit(record, 5_001, 100));
    // still active exactly one window length after it was set
    assert!(!check_limit(record, 5_001, 3_700));
    // expired one second later: any amount passes
    assert!(check_limit(record, 5_001, 3_701));
    assert!(check_limit(record, u128::MAX, 3_701));
    // an amount above the whole ceiling is refused while active
    assert!(!check_limit(record, 10_001, 200));
    // a record set so late that its window end passes the clock's range
    // never expires
    let late = Limit { limit: 1, used: 0, time_set: u64::MAX - 100 };
    assert!(!check_limit(late, 2, u64::MAX));
}
