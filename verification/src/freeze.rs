//! The emergency brake: freezing takes effect at once, un-freezing only after
//! the freeze has stood for a while.
//!
//! Without the delay, whoever gets hold of the admin key could undo an emergency
//! freeze in the very next transaction. The delay is counted from the last
//! change of the flag, so freezing again starts it anew.

use crate::coherence::group_keeps_coherent;
use crate::host::{ledger_timestamp, Stored};
use crate::keys::DataKey;
use crate::ledger::{ledger, LedgerView};
use crate::storage::{
    get_frozen_at, get_min_unfreeze_delay, is_frozen, set_frozen, set_frozen_at,
    set_min_unfreeze_delay,
};
use crate::types::Error;
use crate::{DEFAULT_MIN_UNFREEZE_DELAY, MAX_UNFREEZE_DELAY};
use soroban_sdk::Env;
use vstd::prelude::*;

verus! {

broadcast use group_keeps_coherent;

impl LedgerView {
    /// When the freeze flag last changed.
    pub open spec fn frozen_at(self) -> u64 {
        self.count(DataKey::FrozenAt, 0)
    }

    /// How many seconds a freeze has to stand.
    pub open spec fn unfreeze_delay(self) -> u64 {
        self.count(DataKey::MinUnfreezeDelay, DEFAULT_MIN_UNFREEZE_DELAY)
    }

    /// The ledger after the freeze window was read: what was read had its ttl
    /// bumped.
    pub open spec fn window_touched(self) -> LedgerView {
        self.bump(DataKey::FrozenAt).bump(DataKey::MinUnfreezeDelay)
    }

    /// Whether the freeze has stood for the delay at the time `now`.
    pub open spec fn may_unfreeze(self, now: u64) -> bool {
        now >= self.frozen_at() + self.unfreeze_delay()
    }
}

/// What it means that un-freezing was requested at the time `now`: `done` is
/// the answer, and the ledger went from `before` to `after`.
pub open spec fn unfrozen(
    before: LedgerView,
    now: u64,
    done: Result<(), Error>,
    after: LedgerView,
) -> bool {
    if before.may_unfreeze(now) {
        done == Ok::<(), Error>(()) && after == before.window_touched().freeze(false, now)
    } else {
        done == Err::<(), Error>(Error::UnfreezeTooEarly) && after == before.window_touched()
    }
}

/// Freezes the contract.
pub fn freeze(env: &mut Env)
    requires
        ledger(*old(env)).ready(),
    ensures
        ledger(*final(env)) == ledger(*old(env)).freeze(
            true,
            ledger(*old(env)).limits.timestamp,
        ),
        ledger(*old(env)).coherent() ==> ledger(*final(env)).coherent(),
{
    set_frozen(env, true);
}

/// Un-freezes the contract. [`Error::UnfreezeTooEarly`] before the freeze has
/// stood for the delay.
pub fn unfreeze(env: &mut Env) -> (done: Result<(), Error>)
    requires
        ledger(*old(env)).ready(),
        ledger(*old(env)).sound(DataKey::FrozenAt),
        ledger(*old(env)).sound(DataKey::MinUnfreezeDelay),
    ensures
        unfrozen(
            ledger(*old(env)),
            ledger(*old(env)).limits.timestamp,
            done,
            ledger(*final(env)),
        ),
        ledger(*old(env)).coherent() ==> ledger(*final(env)).coherent(),
{
    let now = ledger_timestamp(env);
    unfreeze_at(env, now)
}

/// Un-freezes the contract at the time `now`. [`Error::UnfreezeTooEarly`] before
/// the freeze has stood for the delay.
pub fn unfreeze_at(env: &mut Env, now: u64) -> (done: Result<(), Error>)
    requires
        ledger(*old(env)).ready(),
        ledger(*old(env)).sound(DataKey::FrozenAt),
        ledger(*old(env)).sound(DataKey::MinUnfreezeDelay),
    ensures
        unfrozen(ledger(*old(env)), now, done, ledger(*final(env))),
        ledger(*old(env)).coherent() ==> ledger(*final(env)).coherent(),
{
    let at = get_frozen_at(env);
    let delay = get_min_unfreeze_delay(env);
    if now < at || now - at < delay {
        return Err(Error::UnfreezeTooEarly);
    }
    set_frozen_at(env, false, now);
    Ok(())
}

/// How many seconds a freeze has to stand.
pub fn get_unfreeze_delay(env: &mut Env) -> (delay: u64)
    requires
        ledger(*old(env)).ready(),
        ledger(*old(env)).sound(DataKey::MinUnfreezeDelay),
    ensures
        delay == ledger(*old(env)).unfreeze_delay(),
        ledger(*final(env)) == ledger(*old(env)).bump(DataKey::MinUnfreezeDelay),
        ledger(*old(env)).coherent() ==> ledger(*final(env)).coherent(),
{
    get_min_unfreeze_delay(env)
}

/// Configures how many seconds a freeze has to stand.
/// [`Error::UnfreezeDelayTooLong`] above [`MAX_UNFREEZE_DELAY`], so that no
/// setting can leave the contract frozen for good.
pub fn set_unfreeze_delay(env: &mut Env, delay: u64) -> (done: Result<(), Error>)
    requires
        ledger(*old(env)).ready(),
    ensures
        match done {
            Ok(_) => delay <= MAX_UNFREEZE_DELAY && ledger(*final(env)) == ledger(*old(env)).store(
                DataKey::MinUnfreezeDelay,
                Stored::Count(delay),
            ),
            Err(e) => delay > MAX_UNFREEZE_DELAY && e == Error::UnfreezeDelayTooLong && ledger(
                *final(env),
            ) == ledger(*old(env)),
        },
        ledger(*old(env)).coherent() ==> ledger(*final(env)).coherent(),
{
    if delay > MAX_UNFREEZE_DELAY {
        return Err(Error::UnfreezeDelayTooLong);
    }
    set_min_unfreeze_delay(env, delay);
    Ok(())
}

/// The guard of every operation that changes the campaign.
/// [`Error::ContractFrozen`] while the contract is frozen.
pub fn ensure_not_frozen(env: &mut Env) -> (done: Result<(), Error>)
    requires
        ledger(*old(env)).ready(),
        ledger(*old(env)).sound(DataKey::Frozen),
    ensures
        done == if ledger(*old(env)).flag(DataKey::Frozen) {
            Err::<(), Error>(Error::ContractFrozen)
        } else {
            Ok(())
        },
        ledger(*final(env)) == ledger(*old(env)).bump(DataKey::Frozen),
        ledger(*old(env)).coherent() ==> ledger(*final(env)).coherent(),
{
    if is_frozen(env) {
        Err(Error::ContractFrozen)
    } else {
        Ok(())
    }
}

} // verus!
