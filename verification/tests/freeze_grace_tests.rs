//! The freeze window, on a real host. The tests pin the boundary exactly, cover
//! the configurable delay, and show that freezing itself is immediate.

use campaign::freeze::{
    ensure_not_frozen, freeze, get_unfreeze_delay, set_unfreeze_delay, unfreeze, unfreeze_at,
};
use campaign::storage::{get_frozen_at, is_frozen, set_campaign};
use campaign::types::{CampaignData, CampaignStatus, Error};
use campaign::{DEFAULT_MIN_UNFREEZE_DELAY, MAX_UNFREEZE_DELAY};
use soroban_sdk::testutils::{Address as _, ContractFunctionSet, EnvTestConfig, Ledger as _};
use soroban_sdk::{Address, Env, String, Val, Vec};

/// Base ledger timestamp, well clear of zero so the window can be measured.
const BASE: u64 = 86400 * 365;

/// A contract without entry points of its own: the tests run inside its frame.
struct Shell;

impl ContractFunctionSet for Shell {
    fn call(&self, _func: &str, _env: Env, _args: &[Val]) -> Option<Val> {
        None
    }
}

fn make_env() -> Env {
    let env = Env::new_with_config(EnvTestConfig {
        capture_snapshot_at_drop: false,
    });
    env.ledger().set_timestamp(BASE);
    env
}

/// Runs `f` as one invocation of the contract.
fn invoke<T>(env: &Env, contract_id: &Address, f: impl FnOnce(&mut Env) -> T) -> T {
    env.as_contract(contract_id, || f(&mut env.clone()))
}

/// Registers the contract with an active campaign.
fn setup(env: &Env) -> Address {
    let contract_id = env.register(Shell, ());
    let campaign = CampaignData {
        creator: Address::generate(env),
        goal_amount: 1000,
        raised_amount: 0,
        end_time: BASE + 30 * 86400,
        status: CampaignStatus::Active,
        accepted_assets: Vec::from_array(
            env,
            [(String::from_str(env, "TST"), Some(Address::generate(env)))],
        ),
        milestone_count: 0,
        min_donation_amount: 0,
        created_at_ledger: 0,
        created_at_time: 0,
        concluded_at_ledger: None,
    };
    invoke(env, &contract_id, |e| set_campaign(e, &campaign));
    contract_id
}

/// Un-freezing inside the window is refused.
#[test]
fn test_unfreeze_within_grace_window_rejected() {
    let env = make_env();
    let contract_id = setup(&env);

    invoke(&env, &contract_id, freeze);

    let done = invoke(&env, &contract_id, unfreeze);
    assert_eq!(done, Err(Error::UnfreezeTooEarly));
    assert_eq!(Error::UnfreezeTooEarly.code(), 103);
    assert!(invoke(&env, &contract_id, is_frozen));
}

/// One second before the window closes is still too early.
#[test]
fn test_unfreeze_one_second_before_window_rejected() {
    let env = make_env();
    let contract_id = setup(&env);

    invoke(&env, &contract_id, freeze);
    env.ledger()
        .set_timestamp(BASE + DEFAULT_MIN_UNFREEZE_DELAY - 1);
    let done = invoke(&env, &contract_id, unfreeze);
    assert_eq!(done.map_err(|e| e.code()), Err(103));
}

/// Exactly at the boundary un-freezing is permitted (`>=`, not `>`).
#[test]
fn test_unfreeze_exactly_at_window_boundary_succeeds() {
    let env = make_env();
    let contract_id = setup(&env);

    invoke(&env, &contract_id, freeze);
    assert!(invoke(&env, &contract_id, is_frozen));

    env.ledger()
        .set_timestamp(BASE + DEFAULT_MIN_UNFREEZE_DELAY);
    assert_eq!(invoke(&env, &contract_id, unfreeze), Ok(()));
    assert!(!invoke(&env, &contract_id, is_frozen));
}

/// Well past the window un-freezing goes through.
#[test]
fn test_unfreeze_after_window_succeeds() {
    let env = make_env();
    let contract_id = setup(&env);

    invoke(&env, &contract_id, freeze);
    env.ledger()
        .set_timestamp(BASE + DEFAULT_MIN_UNFREEZE_DELAY + 5000);
    assert_eq!(invoke(&env, &contract_id, unfreeze), Ok(()));
    assert!(!invoke(&env, &contract_id, is_frozen));
}

/// Freezing stamps the change with the current ledger time.
#[test]
fn test_freeze_stamps_frozen_at() {
    let env = make_env();
    let contract_id = setup(&env);

    let before = invoke(&env, &contract_id, |e| get_frozen_at(e));
    assert_eq!(before, 0, "never frozen");

    invoke(&env, &contract_id, freeze);
    let after = invoke(&env, &contract_id, |e| get_frozen_at(e));
    assert_eq!(after, BASE);
}

/// Freezing again restarts the window: the delay is counted from the most recent
/// change of the flag.
#[test]
fn test_refreeze_restarts_the_window() {
    let env = make_env();
    let contract_id = setup(&env);

    invoke(&env, &contract_id, freeze);
    env.ledger()
        .set_timestamp(BASE + DEFAULT_MIN_UNFREEZE_DELAY);
    assert_eq!(invoke(&env, &contract_id, unfreeze), Ok(()));

    // Freeze again much later; the window restarts from here.
    let second_freeze = BASE + DEFAULT_MIN_UNFREEZE_DELAY + 10_000;
    env.ledger().set_timestamp(second_freeze);
    invoke(&env, &contract_id, freeze);

    // Enough time has passed since the first freeze, but not since the second.
    env.ledger().set_timestamp(second_freeze + 10);
    let done = invoke(&env, &contract_id, unfreeze);
    assert_eq!(done.map_err(|e| e.code()), Err(103));
}

/// The delay has a default when it was never configured.
#[test]
fn test_delay_defaults_when_unset() {
    let env = make_env();
    let contract_id = setup(&env);
    let d = invoke(&env, &contract_id, |e| get_unfreeze_delay(e));
    assert_eq!(d, DEFAULT_MIN_UNFREEZE_DELAY);
    assert_eq!(d, 3600);
}

/// A configured delay replaces the default.
#[test]
fn test_configured_delay_is_enforced() {
    let env = make_env();
    let contract_id = setup(&env);

    let custom = 7200u64; // two hours, longer than the one-hour default
    assert_eq!(
        invoke(&env, &contract_id, |e| set_unfreeze_delay(e, custom)),
        Ok(())
    );
    let d = invoke(&env, &contract_id, |e| get_unfreeze_delay(e));
    assert_eq!(d, custom);

    invoke(&env, &contract_id, freeze);

    // At the configured boundary un-freezing goes through.
    env.ledger().set_timestamp(BASE + custom);
    assert_eq!(invoke(&env, &contract_id, unfreeze), Ok(()));
    assert!(!invoke(&env, &contract_id, is_frozen));
}

/// A delay longer than the default still blocks once the default has elapsed.
#[test]
fn test_longer_configured_delay_blocks_past_default_window() {
    let env = make_env();
    let contract_id = setup(&env);

    let custom = DEFAULT_MIN_UNFREEZE_DELAY * 2;
    assert_eq!(
        invoke(&env, &contract_id, |e| set_unfreeze_delay(e, custom)),
        Ok(())
    );
    invoke(&env, &contract_id, freeze);

    // The default window has passed, the configured one has not.
    env.ledger()
        .set_timestamp(BASE + DEFAULT_MIN_UNFREEZE_DELAY + 1);
    let done = invoke(&env, &contract_id, unfreeze);
    assert_eq!(done.map_err(|e| e.code()), Err(103));
}

/// A zero delay makes the flag an immediate toggle.
#[test]
fn test_zero_delay_allows_immediate_unfreeze() {
    let env = make_env();
    let contract_id = setup(&env);

    assert_eq!(
        invoke(&env, &contract_id, |e| set_unfreeze_delay(e, 0)),
        Ok(())
    );
    invoke(&env, &contract_id, freeze);
    assert_eq!(invoke(&env, &contract_id, unfreeze), Ok(()));
    assert!(!invoke(&env, &contract_id, is_frozen));
}

/// A delay beyond the maximum is refused, so that no setting can leave the
/// contract frozen for good.
#[test]
fn test_delay_above_maximum_rejected() {
    let env = make_env();
    let contract_id = setup(&env);
    let done = invoke(&env, &contract_id, |e| {
        set_unfreeze_delay(e, MAX_UNFREEZE_DELAY + 1)
    });
    assert_eq!(done, Err(Error::UnfreezeDelayTooLong));
    assert_eq!(Error::UnfreezeDelayTooLong.code(), 104);
    let d = invoke(&env, &contract_id, |e| get_unfreeze_delay(e));
    assert_eq!(d, DEFAULT_MIN_UNFREEZE_DELAY);
}

/// The maximum itself is accepted (the boundary is inclusive).
#[test]
fn test_delay_at_maximum_accepted() {
    let env = make_env();
    let contract_id = setup(&env);
    assert_eq!(
        invoke(&env, &contract_id, |e| set_unfreeze_delay(
            e,
            MAX_UNFREEZE_DELAY
        )),
        Ok(())
    );
    let d = invoke(&env, &contract_id, |e| get_unfreeze_delay(e));
    assert_eq!(d, MAX_UNFREEZE_DELAY);
}

/// Freezing is immediate.
#[test]
fn test_freeze_still_immediate_and_blocking() {
    let env = make_env();
    let contract_id = setup(&env);

    assert!(!invoke(&env, &contract_id, is_frozen));
    invoke(&env, &contract_id, freeze);
    assert!(invoke(&env, &contract_id, is_frozen));
}

/// The guard of mutating operations refuses them while the contract is frozen.
#[test]
fn test_frozen_contract_still_blocks_mutations() {
    let env = make_env();
    let contract_id = setup(&env);

    assert_eq!(invoke(&env, &contract_id, ensure_not_frozen), Ok(()));
    invoke(&env, &contract_id, freeze);
    let done = invoke(&env, &contract_id, ensure_not_frozen);
    assert_eq!(done, Err(Error::ContractFrozen));
    assert_eq!(Error::ContractFrozen.code(), 80);
}

/// At the very end of time the window is still measured exactly.
#[test]
fn test_window_does_not_wrap_around() {
    let env = make_env();
    let contract_id = setup(&env);

    env.ledger().set_timestamp(u64::MAX - 10);
    invoke(&env, &contract_id, freeze);
    let done = invoke(&env, &contract_id, |e| unfreeze_at(e, u64::MAX));
    assert_eq!(done, Err(Error::UnfreezeTooEarly));
    let done = invoke(&env, &contract_id, |e| unfreeze_at(e, 0));
    assert_eq!(done, Err(Error::UnfreezeTooEarly));
}

/// Un-freezing is a change of the flag too, and is stamped.
#[test]
fn test_unfreeze_stamps_frozen_at() {
    let env = make_env();
    let contract_id = setup(&env);

    invoke(&env, &contract_id, freeze);
    let later = BASE + DEFAULT_MIN_UNFREEZE_DELAY + 7;
    env.ledger().set_timestamp(later);
    assert_eq!(invoke(&env, &contract_id, unfreeze), Ok(()));
    assert_eq!(invoke(&env, &contract_id, |e| get_frozen_at(e)), later);
}

/// Once open, the window stays open.
#[test]
fn test_window_stays_open() {
    for wait in [3600u64, 3601, 100_000, MAX_UNFREEZE_DELAY] {
        let env = make_env();
        let contract_id = setup(&env);
        invoke(&env, &contract_id, freeze);
        let done = invoke(&env, &contract_id, |e| unfreeze_at(e, BASE + wait));
        assert_eq!(done, Ok(()));
    }
}

/// With the longest delay, too, a freeze can be undone.
#[test]
fn test_no_freeze_is_for_good() {
    let env = make_env();
    let contract_id = setup(&env);
    assert_eq!(
        invoke(&env, &contract_id, |e| set_unfreeze_delay(
            e,
            MAX_UNFREEZE_DELAY
        )),
        Ok(())
    );
    invoke(&env, &contract_id, freeze);
    env.ledger().set_timestamp(BASE + MAX_UNFREEZE_DELAY - 1);
    assert_eq!(
        invoke(&env, &contract_id, unfreeze),
        Err(Error::UnfreezeTooEarly)
    );
    env.ledger().set_timestamp(BASE + MAX_UNFREEZE_DELAY);
    assert_eq!(invoke(&env, &contract_id, unfreeze), Ok(()));
}
