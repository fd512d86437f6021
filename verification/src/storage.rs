//! The storage layer of a campaign.
//!
//! Every function works on the ledger of the running contract through its
//! `env`, and its contract says, over [`ledger`], what it reads and what it
//! leaves behind.
//!
//! Persistent entries survive until they are archived. Every access bumps their
//! ttl, so that entries in use are never archived. Temporary entries expire by
//! themselves; they get [`TEMPORARY_TTL`] when they are written. All ttls are
//! counted in ledgers of about five seconds each.
//!
//! A request that the campaign refuses is answered with an [`Error`]. The
//! contract's entry point turns it into a failed invocation, which undoes all
//! that the invocation wrote.

use crate::host::{
    amount_from_val, amount_to_val, campaign_from_val, campaign_to_val, count_from_val,
    count_to_val, donor_from_val, donor_to_val, flag_from_val, flag_to_val, host_value,
    ledger_timestamp, milestone_from_val, milestone_to_val, milestones_from_val,
    milestones_to_val, persistent_extend_ttl, persistent_get, persistent_has, persistent_set,
    report_from_val, report_to_val, storage_max_ttl, temporary_extend_ttl, temporary_get,
    temporary_has, temporary_remove, temporary_set, unlocked_is_empty, unlocked_items,
    unlocked_new, unlocked_push, word_from_val, word_to_val, KeyPart, Stored, UnlockedList,
};
use crate::keys::DataKey;
use crate::ledger::{
    ledger, legacy_keys, lemma_bump_one_more, lemma_legacy_len, lemma_touched_milestones,
    LedgerView,
};
pub use crate::ledger::{
    PERSISTENT_BUMP_AMOUNT, PERSISTENT_BUMP_THRESHOLD, TEMPORARY_BUMP_THRESHOLD, TEMPORARY_TTL,
};
use crate::milestones::{
    after_unlock, lemma_scan_ends, newly_unlocked, rows_of, unlocked_up_to, MilestoneList,
};
use crate::types::{
    AssetInfo, CampaignData, CampaignReport, DonorRecord, Error, MilestoneData, MilestoneStatus,
};
use crate::DEFAULT_MIN_UNFREEZE_DELAY;
use soroban_sdk::{Address, Env, Val};
use vstd::prelude::*;

verus! {

broadcast use crate::coherence::group_keeps_coherent;

// --- Access to entries ---

/// The value under the persistent `key`, if there is an entry.
fn read(env: &Env, key: &DataKey) -> (value: Option<Val>)
    requires
        ledger(*env).serving(),
    ensures
        value is Some <==> ledger(*env).has(*key),
        value matches Some(v) ==> host_value(v) == ledger(*env).value(*key),
{
    persistent_get(env, &key.to_host(env))
}

/// Bumps the ttl of the persistent entry under `key`, if there is one. The host
/// fails a request to extend an entry that is not there.
fn bump_persistent(env: &mut Env, key: &DataKey)
    requires
        ledger(*old(env)).ready(),
    ensures
        ledger(*final(env)) == ledger(*old(env)).bump(*key),
{
    let host_key = key.to_host(env);
    if persistent_has(env, &host_key) {
        persistent_extend_ttl(env, &host_key, PERSISTENT_BUMP_THRESHOLD, PERSISTENT_BUMP_AMOUNT);
    }
}

/// Writes `value` under the persistent `key` and bumps its ttl.
fn store(env: &mut Env, key: &DataKey, value: &Val)
    requires
        ledger(*old(env)).ready(),
    ensures
        ledger(*final(env)) == ledger(*old(env)).store(*key, host_value(*value)),
{
    let host_key = key.to_host(env);
    persistent_set(env, &host_key, value);
    bump_persistent(env, key);
}

/// The amount under the persistent `key`, or zero.
fn read_amount(env: &Env, key: &DataKey) -> (amount: i128)
    requires
        ledger(*env).serving(),
        ledger(*env).has(*key) ==> ledger(*env).value(*key) is Amount,
    ensures
        amount == ledger(*env).amount(*key),
{
    match read(env, key) {
        Some(value) => amount_from_val(env, &value),
        None => 0,
    }
}

/// The count under the persistent `key`, or `default`.
fn read_count(env: &Env, key: &DataKey, default: u64) -> (count: u64)
    requires
        ledger(*env).serving(),
        ledger(*env).has(*key) ==> ledger(*env).value(*key) is Count,
    ensures
        count == ledger(*env).count(*key, default),
{
    match read(env, key) {
        Some(value) => count_from_val(env, &value),
        None => default,
    }
}

/// The flag under the persistent `key`, or `false`.
fn read_flag(env: &Env, key: &DataKey) -> (flag: bool)
    requires
        ledger(*env).serving(),
        ledger(*env).has(*key) ==> ledger(*env).value(*key) is Flag,
    ensures
        flag == ledger(*env).flag(*key),
{
    match read(env, key) {
        Some(value) => flag_from_val(env, &value),
        None => false,
    }
}

/// Writes `value` under the temporary `key`.
fn write_temporary(env: &mut Env, key: &DataKey, value: &Val)
    requires
        ledger(*old(env)).serving(),
    ensures
        ledger(*final(env)) == ledger(*old(env)).temp_put(*key, host_value(*value)),
{
    let host_key = key.to_host(env);
    temporary_set(env, &host_key, value);
}

/// Extends the ttl of the temporary entry under `key` to [`TEMPORARY_TTL`] if it
/// has sunk to `threshold`.
fn extend_temporary(env: &mut Env, key: &DataKey, threshold: u32)
    requires
        ledger(*old(env)).serving(),
        ledger(*old(env)).temporary_ttl_fits(),
        ledger(*old(env)).temp_has(*key),
        threshold <= TEMPORARY_TTL,
    ensures
        ledger(*final(env)) == ledger(*old(env)).temp_extend(*key, threshold),
{
    let host_key = key.to_host(env);
    temporary_extend_ttl(env, &host_key, threshold, TEMPORARY_TTL);
}

/// Removes the temporary entry under `key`, if there is one.
fn remove_temporary(env: &mut Env, key: &DataKey)
    requires
        ledger(*old(env)).serving(),
    ensures
        ledger(*final(env)) == ledger(*old(env)).temp_remove(*key),
{
    let host_key = key.to_host(env);
    temporary_remove(env, &host_key);
}

// --- Campaign ---

/// Stores the campaign record.
pub fn set_campaign(env: &mut Env, data: &CampaignData)
    requires
        ledger(*old(env)).ready(),
    ensures
        ledger(*final(env)) == ledger(*old(env)).store(
            DataKey::CampaignData,
            Stored::Campaign(data.row()),
        ),
        ledger(*old(env)).coherent() ==> ledger(*final(env)).coherent(),
{
    let value = campaign_to_val(env, data.to_row());
    store(env, &DataKey::CampaignData, &value);
}

/// The campaign record. `None` only before the campaign is initialised.
#[must_use]
pub fn get_campaign(env: &mut Env) -> (data: Option<CampaignData>)
    requires
        ledger(*old(env)).ready(),
        ledger(*old(env)).sound(DataKey::CampaignData),
    ensures
        data is Some <==> ledger(*old(env)).has(DataKey::CampaignData),
        data matches Some(d) ==> Stored::Campaign(d.row()) == ledger(*old(env)).value(
            DataKey::CampaignData,
        ),
        ledger(*final(env)) == ledger(*old(env)).bump(DataKey::CampaignData),
        ledger(*old(env)).coherent() ==> ledger(*final(env)).coherent(),
{
    match read(env, &DataKey::CampaignData) {
        None => None,
        Some(value) => {
            let data = CampaignData::from_row(campaign_from_val(env, &value));
            bump_persistent(env, &DataKey::CampaignData);
            Some(data)
        },
    }
}

/// The campaign record, or [`Error::NotInitialized`] before there is one.
pub fn get_campaign_or_panic(env: &mut Env) -> (data: Result<CampaignData, Error>)
    requires
        ledger(*old(env)).ready(),
        ledger(*old(env)).sound(DataKey::CampaignData),
    ensures
        match data {
            Ok(d) => ledger(*old(env)).has(DataKey::CampaignData) && Stored::Campaign(d.row())
                == ledger(*old(env)).value(DataKey::CampaignData),
            Err(e) => !ledger(*old(env)).has(DataKey::CampaignData) && e == Error::NotInitialized,
        },
        ledger(*final(env)) == ledger(*old(env)).bump(DataKey::CampaignData),
        ledger(*old(env)).coherent() ==> ledger(*final(env)).coherent(),
{
    match get_campaign(env) {
        Some(data) => Ok(data),
        None => Err(Error::NotInitialized),
    }
}

// --- Milestones ---
//
// All milestones live in one entry, under `DataKey::MilestonesVec`. Contracts of
// an earlier layout have one entry for each milestone, under
// `DataKey::MilestoneData(index)`: reads fall back to those while the one entry
// is missing, and the first write through `set_milestone` moves the whole set
// over.

/// All milestones: those in the one entry, or else those that have entries of
/// their own, from index 0 up to the first gap.
pub fn get_milestones_vec(env: &mut Env) -> (list: MilestoneList)
    requires
        ledger(*old(env)).ready(),
        ledger(*old(env)).milestones_sound(),
    ensures
        list.wf(),
        list@ == ledger(*old(env)).milestones(),
        ledger(*final(env)) == ledger(*old(env)).milestones_touched(),
        ledger(*old(env)).coherent() ==> ledger(*final(env)).coherent(),
{
    let key = DataKey::MilestonesVec;
    if let Some(value) = read(env, &key) {
        let list = MilestoneList::from_rows(milestones_from_val(env, &value));
        bump_persistent(env, &key);
        return list;
    }
    let ghost l = ledger(*env);
    let ghost gap = choose|n: nat| #[trigger]
        l.first_gap(n) && (forall|i: u32| i < n ==> #[trigger] l.sound(DataKey::MilestoneData(i)));
    assert(l.persistent =~= l.bump_set(legacy_keys(0)).persistent);
    let mut list = MilestoneList::new(env);
    let mut i: u32 = 0;
    loop
        invariant
            ledger(*env) == l.bump_set(legacy_keys(i as nat)),
            l.ready(),
            !l.has(DataKey::MilestonesVec),
            l.first_gap(gap),
            forall|j: u32| j < gap ==> #[trigger] l.sound(DataKey::MilestoneData(j)),
            i <= gap,
            list.wf(),
            list@ == Seq::new(i as nat, |j: int| l.legacy_milestone(j as u32)),
        ensures
            i == gap,
        decreases gap - i,
    {
        assert(l.sound(DataKey::MilestoneData(i)) || i == gap);
        assert(l.has(DataKey::MilestoneData(i)) || i == gap);
        match read(env, &DataKey::MilestoneData(i)) {
            Some(value) => {
                let milestone = MilestoneData::from_row(milestone_from_val(env, &value));
                list.push_back(&milestone);
                bump_persistent(env, &DataKey::MilestoneData(i));
                proof {
                    let key = DataKey::MilestoneData(i);
                    lemma_bump_one_more(l, legacy_keys(i as nat), key);
                    assert(legacy_keys(i as nat).insert(key.parts()) =~= legacy_keys(
                        (i + 1) as nat,
                    ));
                }
                i += 1;
            },
            None => {
                break;
            },
        }
    }
    proof {
        lemma_legacy_len(l, gap);
    }
    list
}

/// Stores all milestones in the one entry.
pub fn set_milestones_vec(env: &mut Env, list: &MilestoneList)
    requires
        ledger(*old(env)).ready(),
        list.wf(),
    ensures
        ledger(*final(env)) == ledger(*old(env)).store(
            DataKey::MilestonesVec,
            Stored::Milestones(rows_of(list@)),
        ),
        ledger(*old(env)).coherent() ==> ledger(*final(env)).coherent(),
{
    let value = milestones_to_val(list.as_rows());
    store(env, &DataKey::MilestonesVec, &value);
}

/// Stores the milestone at `index`.
///
/// A milestone that is there is replaced, and one just behind the last is
/// appended; either way the whole set is written to the one entry. A milestone
/// further behind gets an entry of its own, and the set stays as it is.
pub fn set_milestone(env: &mut Env, index: u32, data: &MilestoneData)
    requires
        ledger(*old(env)).ready(),
        ledger(*old(env)).milestones_sound(),
        index == ledger(*old(env)).milestones().len() ==> index < u32::MAX,
    ensures
        ledger(*final(env)) == ledger(*old(env)).with_milestone(index, *data),
        ledger(*old(env)).coherent() ==> ledger(*final(env)).coherent(),
{
    proof {
        lemma_touched_milestones(ledger(*env));
    }
    let mut list = get_milestones_vec(env);
    if index < list.len() {
        list.set(index, data);
    } else if index == list.len() {
        list.push_back(data);
    } else {
        let value = milestone_to_val(env, data.to_row());
        store(env, &DataKey::MilestoneData(index), &value);
        return;
    }
    set_milestones_vec(env, &list);
}

/// The milestone at `index`: the one in the set, or else one that was stored
/// behind it under an entry of its own. `None` if there is neither.
#[must_use]
pub fn get_milestone(env: &mut Env, index: u32) -> (milestone: Option<MilestoneData>)
    requires
        ledger(*old(env)).ready(),
        ledger(*old(env)).milestones_sound(),
        index >= ledger(*old(env)).milestones().len() ==> ledger(*old(env)).sound(
            DataKey::MilestoneData(index),
        ),
    ensures
        milestone == ledger(*old(env)).milestone_at(index),
        ledger(*final(env)) == ledger(*old(env)).milestone_touched(index),
        ledger(*old(env)).coherent() ==> ledger(*final(env)).coherent(),
{
    proof {
        lemma_touched_milestones(ledger(*env));
    }
    let list = get_milestones_vec(env);
    if index < list.len() {
        return list.get(index);
    }
    let key = DataKey::MilestoneData(index);
    assert(ledger(*old(env)).has(key) == ledger(*env).has(key));
    match read(env, &key) {
        Some(value) => {
            let milestone = MilestoneData::from_row(milestone_from_val(env, &value));
            bump_persistent(env, &key);
            Some(milestone)
        },
        None => None,
    }
}

/// The milestone at `index`, or [`Error::MilestoneNotFound`].
pub fn get_milestone_or_panic(env: &mut Env, index: u32) -> (milestone: Result<
    MilestoneData,
    Error,
>)
    requires
        ledger(*old(env)).ready(),
        ledger(*old(env)).milestones_sound(),
        index >= ledger(*old(env)).milestones().len() ==> ledger(*old(env)).sound(
            DataKey::MilestoneData(index),
        ),
    ensures
        milestone == match ledger(*old(env)).milestone_at(index) {
            Some(m) => Ok::<MilestoneData, Error>(m),
            None => Err(Error::MilestoneNotFound),
        },
        ledger(*final(env)) == ledger(*old(env)).milestone_touched(index),
        ledger(*old(env)).coherent() ==> ledger(*final(env)).coherent(),
{
    match get_milestone(env, index) {
        Some(milestone) => Ok(milestone),
        None => Err(Error::MilestoneNotFound),
    }
}

/// Unlocks the milestones that `raised_amount` reaches.
///
/// The milestones are scanned in order, up to the first whose target is above
/// `raised_amount`; each one that is still locked is unlocked. If there is any,
/// the whole set is written back at once. Returns index and target of each
/// milestone that was unlocked.
pub fn unlock_milestones_batch(env: &mut Env, raised_amount: i128) -> (unlocked: UnlockedList)
    requires
        ledger(*old(env)).ready(),
        ledger(*old(env)).milestones_sound(),
    ensures
        unlocked_items(unlocked) == newly_unlocked(
            ledger(*old(env)).milestones(),
            raised_amount,
        ),
        ledger(*final(env)) == ledger(*old(env)).with_unlocked(raised_amount),
        ledger(*old(env)).coherent() ==> ledger(*final(env)).coherent(),
{
    let mut list = get_milestones_vec(env);
    let ghost touched = ledger(*env);
    let ghost all = list@;
    let mut unlocked = unlocked_new(env);
    let len = list.len();
    let mut i: u32 = 0;
    while i < len
        invariant_except_break
            forall|j: int| 0 <= j < i ==> (#[trigger] all[j]).target_amount <= raised_amount,
            unlocked_items(unlocked) == unlocked_up_to(all, raised_amount, i as nat),
            unlocked_items(unlocked).len() <= i,
            forall|j: int| i <= j < len ==> list@[j] == all[j],
        invariant
            i <= len,
            len == all.len(),
            list.wf(),
            list@.len() == len,
            ledger(*env) == touched,
            forall|j: int|
                0 <= j < i ==> #[trigger] list@[j] == after_unlock(all, raised_amount)[j],
        ensures
            unlocked_items(unlocked) == newly_unlocked(all, raised_amount),
            list@ == after_unlock(all, raised_amount),
        decreases len - i,
    {
        let milestone = match list.get(i) {
            Some(milestone) => milestone,
            None => {
                break;
            },
        };
        if milestone.target_amount > raised_amount {
            proof {
                lemma_scan_ends(all, raised_amount, i as nat);
            }
            break;
        }
        if milestone.status == MilestoneStatus::Locked {
            let opened = MilestoneData { status: MilestoneStatus::Unlocked, ..milestone };
            list.set(i, &opened);
            unlocked_push(&mut unlocked, (i, milestone.target_amount));
        }
        i += 1;
    }
    if !unlocked_is_empty(&unlocked) {
        set_milestones_vec(env, &list);
    }
    unlocked
}

// --- Donors ---

/// Stores what is known of `donor`.
pub fn set_donor(env: &mut Env, donor: &Address, record: &DonorRecord)
    requires
        ledger(*old(env)).ready(),
    ensures
        ledger(*final(env)) == ledger(*old(env)).store(
            DataKey::DonorData(*donor),
            Stored::Donor(record.row()),
        ),
        ledger(*old(env)).coherent() ==> ledger(*final(env)).coherent(),
{
    let key = DataKey::DonorData(donor.clone());
    let value = donor_to_val(env, record.to_row());
    store(env, &key, &value);
}

/// What is known of `donor`. `None` for someone who never gave.
pub fn get_donor(env: &mut Env, donor: &Address) -> (record: Option<DonorRecord>)
    requires
        ledger(*old(env)).ready(),
        ledger(*old(env)).sound(DataKey::DonorData(*donor)),
    ensures
        record is Some <==> ledger(*old(env)).has(DataKey::DonorData(*donor)),
        record matches Some(r) ==> Stored::Donor(r.row()) == ledger(*old(env)).value(
            DataKey::DonorData(*donor),
        ),
        ledger(*final(env)) == ledger(*old(env)).bump(DataKey::DonorData(*donor)),
        ledger(*old(env)).coherent() ==> ledger(*final(env)).coherent(),
{
    let key = DataKey::DonorData(donor.clone());
    match read(env, &key) {
        None => None,
        Some(value) => {
            let record = DonorRecord::from_row(donor_from_val(env, &value));
            bump_persistent(env, &key);
            Some(record)
        },
    }
}

/// What is known of `donor`, or a record of nothing given.
#[must_use]
pub fn get_donor_or_default(env: &mut Env, donor: &Address) -> (record: DonorRecord)
    requires
        ledger(*old(env)).ready(),
        ledger(*old(env)).sound(DataKey::DonorData(*donor)),
    ensures
        if ledger(*old(env)).has(DataKey::DonorData(*donor)) {
            Stored::Donor(record.row()) == ledger(*old(env)).value(DataKey::DonorData(*donor))
        } else {
            record == DonorRecord::spec_zero(*donor)
        },
        ledger(*final(env)) == ledger(*old(env)).bump(DataKey::DonorData(*donor)),
        ledger(*old(env)).coherent() ==> ledger(*final(env)).coherent(),
{
    match get_donor(env, donor) {
        Some(record) => record,
        None => DonorRecord {
            donor: donor.clone(),
            total_donated: 0,
            asset: AssetInfo::Native,
            last_donation_time: 0,
            last_donation_ledger: 0,
            donation_count: 0,
            refund_claimed: false,
        },
    }
}

/// What `donor` gave in `asset`, zero if nothing.
pub fn get_donor_asset_donation(env: &mut Env, donor: &Address, asset: &Address) -> (amount: i128)
    requires
        ledger(*old(env)).ready(),
        ledger(*old(env)).sound(DataKey::DonorAssetDonation(*donor, *asset)),
    ensures
        amount == ledger(*old(env)).amount(DataKey::DonorAssetDonation(*donor, *asset)),
        ledger(*final(env)) == ledger(*old(env)).bump(
            DataKey::DonorAssetDonation(*donor, *asset),
        ),
        ledger(*old(env)).coherent() ==> ledger(*final(env)).coherent(),
{
    let key = DataKey::DonorAssetDonation(donor.clone(), asset.clone());
    let amount = read_amount(env, &key);
    bump_persistent(env, &key);
    amount
}

/// Adds `amount` to what `donor` gave in `asset`. [`Error::Overflow`] if the sum
/// leaves the range of amounts.
pub fn increment_donor_asset_donation(
    env: &mut Env,
    donor: &Address,
    asset: &Address,
    amount: i128,
) -> (done: Result<(), Error>)
    requires
        ledger(*old(env)).ready(),
        ledger(*old(env)).sound(DataKey::DonorAssetDonation(*donor, *asset)),
    ensures
        ({
            let before = ledger(*old(env));
            let key = DataKey::DonorAssetDonation(*donor, *asset);
            let sum = before.amount(key) + amount;
            match done {
                Ok(_) => i128::MIN <= sum <= i128::MAX && ledger(*final(env)) == before.store(
                    key,
                    Stored::Amount(sum as i128),
                ),
                Err(e) => !(i128::MIN <= sum <= i128::MAX) && e == Error::Overflow && ledger(
                    *final(env),
                ) == before,
            }
        }),
        ledger(*old(env)).coherent() ==> ledger(*final(env)).coherent(),
{
    let key = DataKey::DonorAssetDonation(donor.clone(), asset.clone());
    let current = read_amount(env, &key);
    match current.checked_add(amount) {
        Some(sum) => {
            let value = amount_to_val(env, sum);
            store(env, &key, &value);
            Ok(())
        },
        None => Err(Error::Overflow),
    }
}

// --- Totals ---

/// What was raised over all assets, zero before any donation.
pub fn storage_get_total_raised(env: &mut Env) -> (amount: i128)
    requires
        ledger(*old(env)).ready(),
        ledger(*old(env)).sound(DataKey::TotalRaised),
    ensures
        amount == ledger(*old(env)).amount(DataKey::TotalRaised),
        ledger(*final(env)) == ledger(*old(env)).bump(DataKey::TotalRaised),
        ledger(*old(env)).coherent() ==> ledger(*final(env)).coherent(),
{
    let amount = read_amount(env, &DataKey::TotalRaised);
    bump_persistent(env, &DataKey::TotalRaised);
    amount
}

/// Stores what was raised over all assets. [`Error::InvalidAmount`] if it is
/// negative.
pub fn storage_set_total_raised(env: &mut Env, amount: i128) -> (done: Result<(), Error>)
    requires
        ledger(*old(env)).ready(),
    ensures
        match done {
            Ok(_) => amount >= 0 && ledger(*final(env)) == ledger(*old(env)).store(
                DataKey::TotalRaised,
                Stored::Amount(amount),
            ),
            Err(e) => amount < 0 && e == Error::InvalidAmount && ledger(*final(env)) == ledger(
                *old(env),
            ),
        },
        ledger(*old(env)).coherent() ==> ledger(*final(env)).coherent(),
{
    if amount < 0 {
        return Err(Error::InvalidAmount);
    }
    let value = amount_to_val(env, amount);
    store(env, &DataKey::TotalRaised, &value);
    Ok(())
}

/// Adds `delta` to what was raised over all assets and returns the new total.
/// [`Error::InvalidAmount`] if `delta` is not positive or the new total is
/// negative, [`Error::Overflow`] if it leaves the range of amounts.
pub fn storage_increment_total_raised(env: &mut Env, delta: i128) -> (total: Result<i128, Error>)
    requires
        ledger(*old(env)).ready(),
        delta > 0 ==> ledger(*old(env)).sound(DataKey::TotalRaised),
    ensures
        added(
            ledger(*old(env)),
            DataKey::TotalRaised,
            delta,
            total,
            ledger(*final(env)),
        ),
        ledger(*old(env)).coherent() ==> ledger(*final(env)).coherent(),
{
    if delta <= 0 {
        return Err(Error::InvalidAmount);
    }
    let current = storage_get_total_raised(env);
    match current.checked_add(delta) {
        Some(total) => match storage_set_total_raised(env, total) {
            Ok(_) => Ok(total),
            Err(e) => Err(e),
        },
        None => Err(Error::Overflow),
    }
}

/// What it means that `delta` was added to the amount under `key`: `total` is
/// the answer, and the ledger went from `before` to `after`.
pub open spec fn added(
    before: LedgerView,
    key: DataKey,
    delta: i128,
    total: Result<i128, Error>,
    after: LedgerView,
) -> bool {
    let sum = before.amount(key) + delta;
    let touched = before.bump(key);
    if delta <= 0 {
        total == Err::<i128, Error>(Error::InvalidAmount) && after == before
    } else if sum > i128::MAX {
        total == Err::<i128, Error>(Error::Overflow) && after == touched
    } else if sum < 0 {
        total == Err::<i128, Error>(Error::InvalidAmount) && after == touched
    } else {
        total == Ok::<i128, Error>(sum as i128) && after == touched.store(
            key,
            Stored::Amount(sum as i128),
        )
    }
}

/// How many donations were accepted.
pub fn storage_get_donation_count(env: &mut Env) -> (count: u64)
    requires
        ledger(*old(env)).ready(),
        ledger(*old(env)).sound(DataKey::DonationCount),
    ensures
        count == ledger(*old(env)).count(DataKey::DonationCount, 0),
        ledger(*final(env)) == ledger(*old(env)).bump(DataKey::DonationCount),
        ledger(*old(env)).coherent() ==> ledger(*final(env)).coherent(),
{
    let count = read_count(env, &DataKey::DonationCount, 0);
    bump_persistent(env, &DataKey::DonationCount);
    count
}

/// Counts one more accepted donation and returns the new count.
/// [`Error::Overflow`] at the end of its range.
pub fn storage_increment_donation_count(env: &mut Env) -> (count: Result<u64, Error>)
    requires
        ledger(*old(env)).ready(),
        ledger(*old(env)).sound(DataKey::DonationCount),
    ensures
        ({
            let before = ledger(*old(env));
            let current = before.count(DataKey::DonationCount, 0);
            let touched = before.bump(DataKey::DonationCount);
            match count {
                Ok(next) => next == current + 1 && ledger(*final(env)) == touched.store(
                    DataKey::DonationCount,
                    Stored::Count(next),
                ),
                Err(e) => current == u64::MAX && e == Error::Overflow && ledger(*final(env))
                    == touched,
            }
        }),
        ledger(*old(env)).coherent() ==> ledger(*final(env)).coherent(),
{
    let current = storage_get_donation_count(env);
    match current.checked_add(1) {
        Some(next) => {
            let value = count_to_val(env, next);
            store(env, &DataKey::DonationCount, &value);
            Ok(next)
        },
        None => Err(Error::Overflow),
    }
}

/// How many donors there are.
pub fn storage_get_unique_donor_count(env: &mut Env) -> (count: u32)
    requires
        ledger(*old(env)).ready(),
        ledger(*old(env)).sound(DataKey::UniqueDonorCount),
    ensures
        count == ledger(*old(env)).word(DataKey::UniqueDonorCount),
        ledger(*final(env)) == ledger(*old(env)).bump(DataKey::UniqueDonorCount),
        ledger(*old(env)).coherent() ==> ledger(*final(env)).coherent(),
{
    let count: u32 = match read(env, &DataKey::UniqueDonorCount) {
        Some(value) => word_from_val(env, &value),
        None => 0,
    };
    bump_persistent(env, &DataKey::UniqueDonorCount);
    count
}

/// Counts one more donor and returns the new count.
/// [`Error::Overflow`] at the end of its range.
pub fn storage_increment_unique_donor_count(env: &mut Env) -> (count: Result<u32, Error>)
    requires
        ledger(*old(env)).ready(),
        ledger(*old(env)).sound(DataKey::UniqueDonorCount),
    ensures
        ({
            let before = ledger(*old(env));
            let current = before.word(DataKey::UniqueDonorCount);
            let touched = before.bump(DataKey::UniqueDonorCount);
            match count {
                Ok(next) => next == current + 1 && ledger(*final(env)) == touched.store(
                    DataKey::UniqueDonorCount,
                    Stored::Word(next),
                ),
                Err(e) => current == u32::MAX && e == Error::Overflow && ledger(*final(env))
                    == touched,
            }
        }),
        ledger(*old(env)).coherent() ==> ledger(*final(env)).coherent(),
{
    let current = storage_get_unique_donor_count(env);
    match current.checked_add(1) {
        Some(next) => {
            let value = word_to_val(env, next);
            store(env, &DataKey::UniqueDonorCount, &value);
            Ok(next)
        },
        None => Err(Error::Overflow),
    }
}

/// How many milestones were released.
pub fn storage_get_release_count(env: &mut Env) -> (count: u64)
    requires
        ledger(*old(env)).ready(),
        ledger(*old(env)).sound(DataKey::ReleaseCount),
    ensures
        count == ledger(*old(env)).count(DataKey::ReleaseCount, 0),
        ledger(*final(env)) == ledger(*old(env)).bump(DataKey::ReleaseCount),
        ledger(*old(env)).coherent() ==> ledger(*final(env)).coherent(),
{
    let count = read_count(env, &DataKey::ReleaseCount, 0);
    bump_persistent(env, &DataKey::ReleaseCount);
    count
}

/// Counts one more released milestone and returns the new count.
/// [`Error::Overflow`] at the end of its range.
pub fn storage_increment_release_count(env: &mut Env) -> (count: Result<u64, Error>)
    requires
        ledger(*old(env)).ready(),
        ledger(*old(env)).sound(DataKey::ReleaseCount),
    ensures
        ({
            let before = ledger(*old(env));
            let current = before.count(DataKey::ReleaseCount, 0);
            let touched = before.bump(DataKey::ReleaseCount);
            match count {
                Ok(next) => next == current + 1 && ledger(*final(env)) == touched.store(
                    DataKey::ReleaseCount,
                    Stored::Count(next),
                ),
                Err(e) => current == u64::MAX && e == Error::Overflow && ledger(*final(env))
                    == touched,
            }
        }),
        ledger(*old(env)).coherent() ==> ledger(*final(env)).coherent(),
{
    let current = storage_get_release_count(env);
    match current.checked_add(1) {
        Some(next) => {
            let value = count_to_val(env, next);
            store(env, &DataKey::ReleaseCount, &value);
            Ok(next)
        },
        None => Err(Error::Overflow),
    }
}

// --- What was raised in each asset ---

/// What was raised in `token`.
pub fn storage_get_asset_raised(env: &mut Env, token: &Address) -> (amount: i128)
    requires
        ledger(*old(env)).ready(),
        ledger(*old(env)).sound(DataKey::AssetRaised(*token)),
    ensures
        amount == ledger(*old(env)).amount(DataKey::AssetRaised(*token)),
        ledger(*final(env)) == ledger(*old(env)).bump(DataKey::AssetRaised(*token)),
        ledger(*old(env)).coherent() ==> ledger(*final(env)).coherent(),
{
    let key = DataKey::AssetRaised(token.clone());
    let amount = read_amount(env, &key);
    bump_persistent(env, &key);
    amount
}

/// Stores what was raised in `token`. [`Error::InvalidAmount`] if it is
/// negative.
pub fn storage_set_asset_raised(env: &mut Env, token: &Address, amount: i128) -> (done: Result<
    (),
    Error,
>)
    requires
        ledger(*old(env)).ready(),
    ensures
        match done {
            Ok(_) => amount >= 0 && ledger(*final(env)) == ledger(*old(env)).store(
                DataKey::AssetRaised(*token),
                Stored::Amount(amount),
            ),
            Err(e) => amount < 0 && e == Error::InvalidAmount && ledger(*final(env)) == ledger(
                *old(env),
            ),
        },
        ledger(*old(env)).coherent() ==> ledger(*final(env)).coherent(),
{
    if amount < 0 {
        return Err(Error::InvalidAmount);
    }
    let key = DataKey::AssetRaised(token.clone());
    let value = amount_to_val(env, amount);
    store(env, &key, &value);
    Ok(())
}

/// Adds `delta` to what was raised in `token` and returns the new total of that
/// asset. It refuses what [`storage_increment_total_raised`] refuses.
pub fn storage_increment_asset_raised(env: &mut Env, token: &Address, delta: i128) -> (total:
    Result<i128, Error>)
    requires
        ledger(*old(env)).ready(),
        delta > 0 ==> ledger(*old(env)).sound(DataKey::AssetRaised(*token)),
    ensures
        added(
            ledger(*old(env)),
            DataKey::AssetRaised(*token),
            delta,
            total,
            ledger(*final(env)),
        ),
        ledger(*old(env)).coherent() ==> ledger(*final(env)).coherent(),
{
    if delta <= 0 {
        return Err(Error::InvalidAmount);
    }
    let current = storage_get_asset_raised(env, token);
    match current.checked_add(delta) {
        Some(total) => match storage_set_asset_raised(env, token, total) {
            Ok(_) => Ok(total),
            Err(e) => Err(e),
        },
        None => Err(Error::Overflow),
    }
}

// --- Contract status (temporary) ---

/// Whether the host lets a temporary entry live for [`TEMPORARY_TTL`]. Where it
/// does not, the functions that extend one cannot be used.
pub fn temporary_ttl_fits(env: &Env) -> (fits: bool)
    requires
        ledger(*env).serving(),
    ensures
        fits == ledger(*env).temporary_ttl_fits(),
{
    TEMPORARY_TTL <= storage_max_ttl(env)
}

/// The transient status flag. `None` if it was never set or has expired.
pub fn get_contract_status(env: &mut Env) -> (status: Option<u32>)
    requires
        ledger(*old(env)).serving(),
        ledger(*old(env)).temp_sound(DataKey::ContractStatus),
        ledger(*old(env)).temp_has(DataKey::ContractStatus) ==> ledger(
            *old(env),
        ).temporary_ttl_fits(),
    ensures
        ({
            let before = ledger(*old(env));
            match status {
                Some(s) => before.temp_has(DataKey::ContractStatus) && before.temp_value(
                    DataKey::ContractStatus,
                ) == Stored::Word(s) && ledger(*final(env)) == before.temp_extend(
                    DataKey::ContractStatus,
                    TEMPORARY_BUMP_THRESHOLD,
                ),
                None => !before.temp_has(DataKey::ContractStatus) && ledger(*final(env)) == before,
            }
        }),
        ledger(*old(env)).coherent() ==> ledger(*final(env)).coherent(),
{
    let key = DataKey::ContractStatus.to_host(env);
    match temporary_get(env, &key) {
        None => None,
        Some(value) => {
            let status = word_from_val(env, &value);
            extend_temporary(env, &DataKey::ContractStatus, TEMPORARY_BUMP_THRESHOLD);
            Some(status)
        },
    }
}

/// Stores the transient status flag with a fresh ttl: [`TEMPORARY_TTL`], also
/// where a flag was stored before.
pub fn set_contract_status(env: &mut Env, status: u32)
    requires
        ledger(*old(env)).serving(),
        ledger(*old(env)).temporary_ttl_fits(),
    ensures
        ledger(*final(env)) == ledger(*old(env)).temp_put(
            DataKey::ContractStatus,
            Stored::Word(status),
        ).temp_extend(DataKey::ContractStatus, TEMPORARY_TTL),
        ledger(*old(env)).coherent() ==> ledger(*final(env)).coherent(),
{
    let value = word_to_val(env, status);
    write_temporary(env, &DataKey::ContractStatus, &value);
    extend_temporary(env, &DataKey::ContractStatus, TEMPORARY_TTL);
}

// --- Re-entrancy lock (temporary) ---
//
// The host rules out true re-entrancy, but a chain of calls between contracts
// can still come back. The lock keeps a function from running inside itself
// within one transaction.

/// Takes the re-entrancy lock and gives it [`TEMPORARY_TTL`].
/// [`Error::ReentrantCall`] if it is already held.
pub fn acquire_lock(env: &mut Env) -> (done: Result<(), Error>)
    requires
        ledger(*old(env)).serving(),
        !ledger(*old(env)).temp_has(DataKey::ReentrancyLock) ==> ledger(
            *old(env),
        ).temporary_ttl_fits(),
    ensures
        ({
            let before = ledger(*old(env));
            match done {
                Ok(_) => !before.temp_has(DataKey::ReentrancyLock) && ledger(*final(env))
                    == before.locked(),
                Err(e) => before.temp_has(DataKey::ReentrancyLock) && e == Error::ReentrantCall
                    && ledger(*final(env)) == before,
            }
        }),
        ledger(*old(env)).coherent() ==> ledger(*final(env)).coherent(),
{
    let key = DataKey::ReentrancyLock.to_host(env);
    if temporary_has(env, &key) {
        return Err(Error::ReentrantCall);
    }
    let value = flag_to_val(env, true);
    write_temporary(env, &DataKey::ReentrancyLock, &value);
    extend_temporary(env, &DataKey::ReentrancyLock, TEMPORARY_TTL);
    Ok(())
}

/// Gives the re-entrancy lock back.
pub fn release_lock(env: &mut Env)
    requires
        ledger(*old(env)).serving(),
    ensures
        ledger(*final(env)) == ledger(*old(env)).temp_remove(DataKey::ReentrancyLock),
        ledger(*old(env)).coherent() ==> ledger(*final(env)).coherent(),
{
    remove_temporary(env, &DataKey::ReentrancyLock);
}

// --- Freeze flag ---

/// Whether the contract is frozen, `false` if the flag was never set.
pub fn is_frozen(env: &mut Env) -> (frozen: bool)
    requires
        ledger(*old(env)).ready(),
        ledger(*old(env)).sound(DataKey::Frozen),
    ensures
        frozen == ledger(*old(env)).flag(DataKey::Frozen),
        ledger(*final(env)) == ledger(*old(env)).bump(DataKey::Frozen),
        ledger(*old(env)).coherent() ==> ledger(*final(env)).coherent(),
{
    let frozen = read_flag(env, &DataKey::Frozen);
    bump_persistent(env, &DataKey::Frozen);
    frozen
}

/// Sets the freeze flag, and stamps the change with the time of the current
/// ledger. The time that a freeze has stood is counted from the stamp.
pub fn set_frozen(env: &mut Env, frozen: bool)
    requires
        ledger(*old(env)).ready(),
    ensures
        ledger(*final(env)) == ledger(*old(env)).freeze(
            frozen,
            ledger(*old(env)).limits.timestamp,
        ),
        ledger(*old(env)).coherent() ==> ledger(*final(env)).coherent(),
{
    let now = ledger_timestamp(env);
    set_frozen_at(env, frozen, now);
}

/// Sets the freeze flag, and stamps the change with `now`.
pub fn set_frozen_at(env: &mut Env, frozen: bool, now: u64)
    requires
        ledger(*old(env)).ready(),
    ensures
        ledger(*final(env)) == ledger(*old(env)).freeze(frozen, now),
        ledger(*old(env)).coherent() ==> ledger(*final(env)).coherent(),
{
    let flag = flag_to_val(env, frozen);
    store(env, &DataKey::Frozen, &flag);
    let stamp = count_to_val(env, now);
    store(env, &DataKey::FrozenAt, &stamp);
}

/// When the freeze flag last changed, zero if it was never set.
pub fn get_frozen_at(env: &mut Env) -> (at: u64)
    requires
        ledger(*old(env)).ready(),
        ledger(*old(env)).sound(DataKey::FrozenAt),
    ensures
        at == ledger(*old(env)).count(DataKey::FrozenAt, 0),
        ledger(*final(env)) == ledger(*old(env)).bump(DataKey::FrozenAt),
        ledger(*old(env)).coherent() ==> ledger(*final(env)).coherent(),
{
    let at = read_count(env, &DataKey::FrozenAt, 0);
    bump_persistent(env, &DataKey::FrozenAt);
    at
}

/// How many seconds a freeze has to stand, [`DEFAULT_MIN_UNFREEZE_DELAY`] if
/// nothing was configured.
pub fn get_min_unfreeze_delay(env: &mut Env) -> (delay: u64)
    requires
        ledger(*old(env)).ready(),
        ledger(*old(env)).sound(DataKey::MinUnfreezeDelay),
    ensures
        delay == ledger(*old(env)).count(DataKey::MinUnfreezeDelay, DEFAULT_MIN_UNFREEZE_DELAY),
        ledger(*final(env)) == ledger(*old(env)).bump(DataKey::MinUnfreezeDelay),
        ledger(*old(env)).coherent() ==> ledger(*final(env)).coherent(),
{
    let delay = read_count(env, &DataKey::MinUnfreezeDelay, DEFAULT_MIN_UNFREEZE_DELAY);
    bump_persistent(env, &DataKey::MinUnfreezeDelay);
    delay
}

/// Configures how many seconds a freeze has to stand.
pub fn set_min_unfreeze_delay(env: &mut Env, delay: u64)
    requires
        ledger(*old(env)).ready(),
    ensures
        ledger(*final(env)) == ledger(*old(env)).store(
            DataKey::MinUnfreezeDelay,
            Stored::Count(delay),
        ),
        ledger(*old(env)).coherent() ==> ledger(*final(env)).coherent(),
{
    let value = count_to_val(env, delay);
    store(env, &DataKey::MinUnfreezeDelay, &value);
}

// --- Blocked assets ---
//
// A circuit breaker: an asset can be blocked without freezing the contract.

/// Whether `asset` is blocked, `false` if it never was.
pub fn is_asset_blocked(env: &mut Env, asset: &Address) -> (blocked: bool)
    requires
        ledger(*old(env)).ready(),
        ledger(*old(env)).sound(DataKey::BlockedAsset(*asset)),
    ensures
        blocked == ledger(*old(env)).flag(DataKey::BlockedAsset(*asset)),
        ledger(*final(env)) == ledger(*old(env)).bump(DataKey::BlockedAsset(*asset)),
        ledger(*old(env)).coherent() ==> ledger(*final(env)).coherent(),
{
    let key = DataKey::BlockedAsset(asset.clone());
    let blocked = read_flag(env, &key);
    bump_persistent(env, &key);
    blocked
}

/// Blocks `asset`: no new donations in it.
pub fn block_asset(env: &mut Env, asset: &Address)
    requires
        ledger(*old(env)).ready(),
    ensures
        ledger(*final(env)) == ledger(*old(env)).store(
            DataKey::BlockedAsset(*asset),
            Stored::Flag(true),
        ),
        ledger(*old(env)).coherent() ==> ledger(*final(env)).coherent(),
{
    let key = DataKey::BlockedAsset(asset.clone());
    let value = flag_to_val(env, true);
    store(env, &key, &value);
}

/// Unblocks `asset`: donations in it are accepted again.
pub fn unblock_asset(env: &mut Env, asset: &Address)
    requires
        ledger(*old(env)).ready(),
    ensures
        ledger(*final(env)) == ledger(*old(env)).store(
            DataKey::BlockedAsset(*asset),
            Stored::Flag(false),
        ),
        ledger(*old(env)).coherent() ==> ledger(*final(env)).coherent(),
{
    let key = DataKey::BlockedAsset(asset.clone());
    let value = flag_to_val(env, false);
    store(env, &key, &value);
}

// --- Memoised report ---

/// The memoised report, if there is one.
pub fn get_cached_report_storage(env: &mut Env) -> (report: Option<CampaignReport>)
    requires
        ledger(*old(env)).ready(),
        ledger(*old(env)).sound(DataKey::CachedReport),
    ensures
        report is Some <==> ledger(*old(env)).has(DataKey::CachedReport),
        report matches Some(r) ==> Stored::Report(r.row()) == ledger(*old(env)).value(
            DataKey::CachedReport,
        ),
        ledger(*final(env)) == ledger(*old(env)).bump(DataKey::CachedReport),
        ledger(*old(env)).coherent() ==> ledger(*final(env)).coherent(),
{
    match read(env, &DataKey::CachedReport) {
        None => None,
        Some(value) => {
            let report = CampaignReport::from_row(report_from_val(env, &value));
            bump_persistent(env, &DataKey::CachedReport);
            Some(report)
        },
    }
}

/// Memoises a freshly computed report.
pub fn set_cached_report_storage(env: &mut Env, report: &CampaignReport)
    requires
        ledger(*old(env)).ready(),
    ensures
        ledger(*final(env)) == ledger(*old(env)).store(
            DataKey::CachedReport,
            Stored::Report(report.row()),
        ),
        ledger(*old(env)).coherent() ==> ledger(*final(env)).coherent(),
{
    let value = report_to_val(env, report.to_row());
    store(env, &DataKey::CachedReport, &value);
}

// --- Bulk ttl refresh ---

/// The keys whose entries [`bump_all_persistent`] refreshes.
pub open spec fn refreshed_keys(milestone_count: u32) -> Set<Seq<KeyPart>> {
    Set::new(
        |parts: Seq<KeyPart>|
            {
                ||| parts == DataKey::CampaignData.parts()
                ||| parts == DataKey::TotalRaised.parts()
                ||| parts == DataKey::DonationCount.parts()
                ||| parts == DataKey::UniqueDonorCount.parts()
                ||| parts == DataKey::ReleaseCount.parts()
                ||| parts == DataKey::MilestonesVec.parts()
                ||| parts == DataKey::CachedReport.parts()
                ||| parts == DataKey::FrozenAt.parts()
                ||| parts == DataKey::MinUnfreezeDelay.parts()
                ||| exists|i: u32|
                    i < milestone_count && parts == #[trigger] DataKey::MilestoneData(i).parts()
            },
    )
}

/// Bumps the ttl of the persistent entry under `key`, if there is one, and notes
/// that it is done.
fn refresh(env: &mut Env, key: &DataKey, Ghost(start): Ghost<LedgerView>, Ghost(done): Ghost<
    Set<Seq<KeyPart>>,
>)
    requires
        ledger(*old(env)).ready(),
        ledger(*old(env)) == start.bump_set(done),
    ensures
        ledger(*final(env)).ready(),
        ledger(*final(env)) == start.bump_set(done.insert(key.parts())),
{
    bump_persistent(env, key);
    proof {
        lemma_bump_one_more(start, done, *key);
    }
}

/// Refreshes the ttl of all core persistent entries, so that none is archived
/// during a long campaign. No value changes.
pub fn bump_all_persistent(env: &mut Env, milestone_count: u32)
    requires
        ledger(*old(env)).ready(),
    ensures
        ledger(*final(env)) == ledger(*old(env)).bump_set(refreshed_keys(milestone_count)),
        ledger(*old(env)).coherent() ==> ledger(*final(env)).coherent(),
{
    let ghost start = ledger(*env);
    let ghost mut done = Set::<Seq<KeyPart>>::empty();
    let core_keys = [
        DataKey::CampaignData,
        DataKey::TotalRaised,
        DataKey::DonationCount,
        DataKey::UniqueDonorCount,
        DataKey::ReleaseCount,
        DataKey::MilestonesVec,
        DataKey::CachedReport,
        DataKey::FrozenAt,
        DataKey::MinUnfreezeDelay,
    ];
    assert(start.persistent =~= start.bump_set(done).persistent);
    let mut k: usize = 0;
    while k < 9
        invariant
            k <= 9,
            ledger(*env).ready(),
            ledger(*env) == start.bump_set(done),
            done =~= Set::new(
                |parts: Seq<KeyPart>|
                    exists|j: int| 0 <= j < k && parts == #[trigger] core_keys@[j].parts(),
            ),
        decreases 9 - k,
    {
        refresh(env, &core_keys[k], Ghost(start), Ghost(done));
        proof {
            done = done.insert(core_keys@[k as int].parts());
        }
        k += 1;
    }
    let ghost core = done;
    let mut i: u32 = 0;
    while i < milestone_count
        invariant
            i <= milestone_count,
            ledger(*env).ready(),
            ledger(*env) == start.bump_set(done),
            done =~= core.union(
                Set::new(
                    |parts: Seq<KeyPart>|
                        exists|j: u32| j < i && parts == #[trigger] DataKey::MilestoneData(
                            j,
                        ).parts(),
                ),
            ),
        decreases milestone_count - i,
    {
        refresh(env, &DataKey::MilestoneData(i), Ghost(start), Ghost(done));
        proof {
            done = done.insert(DataKey::MilestoneData(i).parts());
        }
        i += 1;
    }
    assert(done =~= refreshed_keys(milestone_count));
}

} // verus!
