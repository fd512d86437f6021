//! What holds of the operations taken together.
//!
//! Each law is stated over the functions that the contracts of the operations
//! are written in, so it holds of every sequence of calls they describe. What the
//! operations do to single entries is told in [`entries`].

use crate::freeze::unfrozen;
use crate::host::Stored;
use crate::keys::{lemma_keys_are_distinct, lemma_other_key, DataKey};
use crate::ledger::{
    legacy_keys, lemma_legacy_len, lemma_touched_milestones, LedgerView,
    PERSISTENT_BUMP_THRESHOLD, TEMPORARY_TTL,
};
use crate::milestones::{
    after_unlock, lemma_nothing_more, milestones_of, newly_unlocked, reached, rows_of,
    unlocked_up_to, unlocks,
};
use crate::storage::{added, refreshed_keys};
use crate::types::{CampaignData, CampaignReport, DonorRecord, Error, MilestoneData};
use crate::MAX_UNFREEZE_DELAY;
use soroban_sdk::Address;
use vstd::prelude::*;

pub mod entries;

verus! {

// --- Reads and writes ---

/// What was stored under a key is what is found there.
pub proof fn law_read_gives_back_write(l: LedgerView, key: DataKey, value: Stored)
    ensures
        l.store(key, value).has(key),
        l.store(key, value).value(key) == value,
{
}

/// A write under one key leaves the entry under every other key as it is, its
/// ttl too, and touches no temporary entry.
pub proof fn law_write_touches_one_entry(
    l: LedgerView,
    key: DataKey,
    value: Stored,
    other: DataKey,
)
    requires
        other != key,
    ensures
        l.store(key, value).has(other) == l.has(other),
        l.store(key, value).value(other) == l.value(other),
        l.store(key, value).ttl(other) == l.ttl(other),
        l.store(key, value).temporary == l.temporary,
{
    lemma_other_key(other, key);
}

/// Of two writes under one key, the second decides.
pub proof fn law_last_write_wins(l: LedgerView, key: DataKey, first: Stored, second: Stored)
    ensures
        l.store(key, first).store(key, second).value(key) == second,
{
}

/// A bump changes no value and adds or removes no entry: reading the ledger
/// leaves what it reads.
pub proof fn law_bump_changes_no_value(l: LedgerView, key: DataKey, other: DataKey)
    ensures
        l.bump(key).has(other) == l.has(other),
        l.has(other) ==> l.bump(key).value(other) == l.value(other),
        l.bump(key).temporary == l.temporary,
{
}

/// No write removes an entry: what the campaign has stored once, it has for good.
pub proof fn law_no_entry_is_lost(l: LedgerView, key: DataKey, value: Stored, other: DataKey)
    requires
        l.has(other),
    ensures
        l.store(key, value).has(other),
        l.bump(key).has(other),
{
}

/// The campaign record that is read after it was stored is the one that was
/// stored.
pub proof fn law_campaign_survives(l: LedgerView, stored: CampaignData, found: CampaignData)
    requires
        Stored::Campaign(found.row()) == l.store(
            DataKey::CampaignData,
            Stored::Campaign(stored.row()),
        ).value(DataKey::CampaignData),
    ensures
        found == stored,
{
}

/// The donor record that is read after it was stored is the one that was stored.
pub proof fn law_donor_survives(
    l: LedgerView,
    donor: Address,
    stored: DonorRecord,
    found: DonorRecord,
)
    requires
        Stored::Donor(found.row()) == l.store(
            DataKey::DonorData(donor),
            Stored::Donor(stored.row()),
        ).value(DataKey::DonorData(donor)),
    ensures
        found == stored,
{
}

/// The report that is read after it was memoised is the one that was memoised.
pub proof fn law_report_survives(l: LedgerView, stored: CampaignReport, found: CampaignReport)
    requires
        Stored::Report(found.row()) == l.store(
            DataKey::CachedReport,
            Stored::Report(stored.row()),
        ).value(DataKey::CachedReport),
    ensures
        found == stored,
{
}

/// The milestones that are read after they were stored are those that were
/// stored, whatever layout the ledger had before.
pub proof fn law_milestones_survive(l: LedgerView, milestones: Seq<MilestoneData>)
    ensures
        l.store(
            DataKey::MilestonesVec,
            Stored::Milestones(rows_of(milestones)),
        ).milestones() == milestones,
{
    assert(milestones_of(rows_of(milestones)) =~= milestones);
}

// --- Ttls ---

/// A bumped entry is far from being archived: its ttl lies above the threshold,
/// unless the host allows no ttl that long.
pub proof fn law_bumped_entry_stays(l: LedgerView, key: DataKey)
    requires
        l.has(key),
    ensures
        l.bump(key).ttl(key) > PERSISTENT_BUMP_THRESHOLD || l.bump(key).ttl(key)
            >= l.limits.max_ttl,
{
}

/// No ttl is ever lowered by a bump.
pub proof fn law_bump_lowers_no_ttl(l: LedgerView, key: DataKey, other: DataKey)
    requires
        l.has(other),
    ensures
        l.bump(key).ttl(other) >= l.ttl(other),
{
}

/// A second bump on the same ledger changes nothing.
pub proof fn law_second_bump_changes_nothing(l: LedgerView, key: DataKey)
    ensures
        l.bump(key).bump(key) == l.bump(key),
{
    assert(l.bump(key).bump(key).persistent =~= l.bump(key).persistent);
}

/// After a write, too, the entry is far from being archived.
pub proof fn law_written_entry_stays(l: LedgerView, key: DataKey, value: Stored)
    ensures
        l.store(key, value).ttl(key) > PERSISTENT_BUMP_THRESHOLD || l.store(key, value).ttl(key)
            >= l.limits.max_ttl,
{
}

/// Reading the milestones bumps each entry that holds one of them: the one entry,
/// or those that some of them have of their own.
pub proof fn law_milestone_reads_bump(l: LedgerView, index: u32)
    requires
        l.milestones_sound(),
    ensures
        l.has(DataKey::MilestonesVec) ==> l.milestones_touched().ttl(DataKey::MilestonesVec)
            == l.bump(DataKey::MilestonesVec).ttl(DataKey::MilestonesVec),
        !l.has(DataKey::MilestonesVec) && index < l.milestones().len()
            ==> l.milestones_touched().ttl(DataKey::MilestoneData(index)) == l.bump(
            DataKey::MilestoneData(index),
        ).ttl(DataKey::MilestoneData(index)),
        l.has(DataKey::MilestoneData(index)) && index >= l.milestones().len()
            ==> l.milestone_touched(index).ttl(DataKey::MilestoneData(index)) == l.bump(
            DataKey::MilestoneData(index),
        ).ttl(DataKey::MilestoneData(index)),
{
    let key = DataKey::MilestoneData(index);
    lemma_other_key(DataKey::MilestonesVec, key);
    if !l.has(DataKey::MilestonesVec) {
        let n = l.legacy_len();
        assert(l.first_gap(n));
        assert(index < n ==> l.has(key) && legacy_keys(n).contains(key.parts()));
        if legacy_keys(n).contains(key.parts()) {
            let i = choose|i: u32| i < n && key.parts() == #[trigger] DataKey::MilestoneData(
                i,
            ).parts();
            lemma_keys_are_distinct(key, DataKey::MilestoneData(i));
        }
    }
}

/// Reading the freeze window bumps the stamp and the delay.
pub proof fn law_window_reads_bump(l: LedgerView)
    ensures
        l.has(DataKey::FrozenAt) ==> l.window_touched().ttl(DataKey::FrozenAt) == l.bump(
            DataKey::FrozenAt,
        ).ttl(DataKey::FrozenAt),
        l.has(DataKey::MinUnfreezeDelay) ==> l.window_touched().ttl(DataKey::MinUnfreezeDelay)
            == l.bump(DataKey::MinUnfreezeDelay).ttl(DataKey::MinUnfreezeDelay),
{
    lemma_other_key(DataKey::FrozenAt, DataKey::MinUnfreezeDelay);
}

/// The bulk refresh does to each core entry what a bump does, and leaves every
/// other entry as it is.
pub proof fn law_refresh_bumps_core_entries(l: LedgerView, milestone_count: u32, key: DataKey)
    ensures
        ({
            let after = l.bump_set(refreshed_keys(milestone_count));
            &&& after.has(key) == l.has(key)
            &&& l.has(key) ==> after.value(key) == l.value(key)
            &&& l.has(key) && refreshed_keys(milestone_count).contains(key.parts())
                ==> after.ttl(key) == l.bump(key).ttl(key)
            &&& l.has(key) && !refreshed_keys(milestone_count).contains(key.parts())
                ==> after.ttl(key) == l.ttl(key)
        }),
{
}

/// The core entries are those of the campaign, the totals and counters, the
/// milestones in both layouts, the report and the freeze window.
pub proof fn law_core_entries(milestone_count: u32, key: DataKey)
    ensures
        refreshed_keys(milestone_count).contains(key.parts()) <==> match key {
            DataKey::CampaignData => true,
            DataKey::TotalRaised => true,
            DataKey::DonationCount => true,
            DataKey::UniqueDonorCount => true,
            DataKey::ReleaseCount => true,
            DataKey::MilestonesVec => true,
            DataKey::CachedReport => true,
            DataKey::FrozenAt => true,
            DataKey::MinUnfreezeDelay => true,
            DataKey::MilestoneData(index) => index < milestone_count,
            _ => false,
        },
{
    if refreshed_keys(milestone_count).contains(key.parts()) {
        if key.parts() == DataKey::CampaignData.parts() {
            lemma_keys_are_distinct(key, DataKey::CampaignData);
        } else if key.parts() == DataKey::TotalRaised.parts() {
            lemma_keys_are_distinct(key, DataKey::TotalRaised);
        } else if key.parts() == DataKey::DonationCount.parts() {
            lemma_keys_are_distinct(key, DataKey::DonationCount);
        } else if key.parts() == DataKey::UniqueDonorCount.parts() {
            lemma_keys_are_distinct(key, DataKey::UniqueDonorCount);
        } else if key.parts() == DataKey::ReleaseCount.parts() {
            lemma_keys_are_distinct(key, DataKey::ReleaseCount);
        } else if key.parts() == DataKey::MilestonesVec.parts() {
            lemma_keys_are_distinct(key, DataKey::MilestonesVec);
        } else if key.parts() == DataKey::CachedReport.parts() {
            lemma_keys_are_distinct(key, DataKey::CachedReport);
        } else if key.parts() == DataKey::FrozenAt.parts() {
            lemma_keys_are_distinct(key, DataKey::FrozenAt);
        } else if key.parts() == DataKey::MinUnfreezeDelay.parts() {
            lemma_keys_are_distinct(key, DataKey::MinUnfreezeDelay);
        } else {
            let i = choose|i: u32|
                i < milestone_count && key.parts() == #[trigger] DataKey::MilestoneData(i).parts();
            lemma_keys_are_distinct(key, DataKey::MilestoneData(i));
        }
    }
    if let DataKey::MilestoneData(index) = key {
        assert(key.parts() == DataKey::MilestoneData(index).parts());
    }
}

/// The status flag that is read after it was set is the one that was set. Its ttl
/// is fresh, also where a flag was stored before: it is [`TEMPORARY_TTL`], unless
/// the entry had more than that. No other entry changes.
pub proof fn law_contract_status_survives(l: LedgerView, status: u32, other: DataKey)
    requires
        l.temporary_ttl_fits(),
    ensures
        ({
            let after = l.temp_put(DataKey::ContractStatus, Stored::Word(status)).temp_extend(
                DataKey::ContractStatus,
                TEMPORARY_TTL,
            );
            let parts = DataKey::ContractStatus.parts();
            let ttl = if l.temp_has(DataKey::ContractStatus) {
                l.temporary[parts].ttl
            } else {
                l.limits.fresh_temporary
            };
            &&& after.temp_has(DataKey::ContractStatus)
            &&& after.temp_value(DataKey::ContractStatus) == Stored::Word(status)
            &&& ttl <= TEMPORARY_TTL ==> after.temporary[parts].ttl == TEMPORARY_TTL
            &&& after.temporary[parts].ttl >= TEMPORARY_TTL
            &&& after.persistent == l.persistent
            &&& other != DataKey::ContractStatus ==> after.temp_has(other) == l.temp_has(other)
                && after.temporary[other.parts()] == l.temporary[other.parts()]
        }),
{
    if other != DataKey::ContractStatus {
        lemma_other_key(other, DataKey::ContractStatus);
    }
}

// --- The lock ---

/// A lock that was taken is held, so a second request for it is refused; once
/// given back it is free, and the ledger is the one from before it was taken.
pub proof fn law_lock_excludes(l: LedgerView)
    requires
        !l.temp_has(DataKey::ReentrancyLock),
    ensures
        l.locked().temp_has(DataKey::ReentrancyLock),
        !l.locked().temp_remove(DataKey::ReentrancyLock).temp_has(DataKey::ReentrancyLock),
        l.locked().temp_remove(DataKey::ReentrancyLock) == l,
{
    assert(l.locked().temp_remove(DataKey::ReentrancyLock).temporary =~= l.temporary);
}

/// A lock that was taken has the explicit ttl, unless the host gives a new entry
/// more than that.
pub proof fn law_lock_gets_explicit_ttl(l: LedgerView)
    requires
        !l.temp_has(DataKey::ReentrancyLock),
        l.temporary_ttl_fits(),
        l.limits.fresh_temporary <= TEMPORARY_TTL,
    ensures
        l.locked().temporary[DataKey::ReentrancyLock.parts()].ttl == TEMPORARY_TTL,
{
}

// --- Totals ---

/// Two accepted additions to a total add up.
pub proof fn law_additions_add_up(
    l0: LedgerView,
    l1: LedgerView,
    l2: LedgerView,
    key: DataKey,
    a: i128,
    b: i128,
    first: i128,
    second: i128,
)
    requires
        added(l0, key, a, Ok(first), l1),
        added(l1, key, b, Ok(second), l2),
    ensures
        first == l0.amount(key) + a,
        second == l0.amount(key) + a + b,
        l2.amount(key) == l0.amount(key) + a + b,
{
}

/// An accepted addition raises the total, and a refused one changes no value.
pub proof fn law_total_only_grows(
    before: LedgerView,
    key: DataKey,
    delta: i128,
    total: Result<i128, Error>,
    after: LedgerView,
)
    requires
        added(before, key, delta, total, after),
        before.amount(key) >= 0,
    ensures
        match total {
            Ok(t) => t > before.amount(key) && after.amount(key) == t,
            Err(_) => after.amount(key) == before.amount(key),
        },
        after.amount(key) >= 0,
        total is Err <==> delta <= 0 || before.amount(key) + delta > i128::MAX,
{
}

/// What is raised in one asset does not count for another.
pub proof fn law_assets_are_apart(
    before: LedgerView,
    token: Address,
    other: Address,
    delta: i128,
    total: Result<i128, Error>,
    after: LedgerView,
)
    requires
        added(before, DataKey::AssetRaised(token), delta, total, after),
        other != token,
    ensures
        after.amount(DataKey::AssetRaised(other)) == before.amount(DataKey::AssetRaised(other)),
        after.amount(DataKey::TotalRaised) == before.amount(DataKey::TotalRaised),
{
    lemma_other_key(DataKey::AssetRaised(token), DataKey::AssetRaised(other));
    lemma_other_key(DataKey::AssetRaised(token), DataKey::TotalRaised);
}

// --- Blocked assets ---

/// Blocking an asset blocks that asset only, and unblocking it undoes the block.
pub proof fn law_block_is_for_one_asset(l: LedgerView, asset: Address, other: Address)
    requires
        other != asset,
    ensures
        ({
            let blocked = l.store(DataKey::BlockedAsset(asset), Stored::Flag(true));
            let unblocked = blocked.store(DataKey::BlockedAsset(asset), Stored::Flag(false));
            &&& blocked.flag(DataKey::BlockedAsset(asset))
            &&& !unblocked.flag(DataKey::BlockedAsset(asset))
            &&& blocked.flag(DataKey::BlockedAsset(other)) == l.flag(DataKey::BlockedAsset(other))
            &&& unblocked.flag(DataKey::BlockedAsset(other)) == l.flag(
                DataKey::BlockedAsset(other),
            )
        }),
{
    lemma_other_key(DataKey::BlockedAsset(asset), DataKey::BlockedAsset(other));
}

// --- The freeze window ---

/// Every change of the freeze flag takes effect at once and is stamped with its
/// time; the configured delay stays.
pub proof fn law_freeze_is_stamped(l: LedgerView, frozen: bool, now: u64)
    ensures
        l.freeze(frozen, now).flag(DataKey::Frozen) == frozen,
        l.freeze(frozen, now).frozen_at() == now,
        l.freeze(frozen, now).unfreeze_delay() == l.unfreeze_delay(),
{
    lemma_other_key(DataKey::Frozen, DataKey::FrozenAt);
    lemma_other_key(DataKey::MinUnfreezeDelay, DataKey::FrozenAt);
    lemma_other_key(DataKey::MinUnfreezeDelay, DataKey::Frozen);
}

/// A freeze can be undone exactly when it has stood for the delay, counted from
/// the last freeze: freezing again starts the delay anew. Before that the
/// contract stays frozen.
pub proof fn law_freeze_stands_for_the_delay(
    l: LedgerView,
    frozen_at: u64,
    now: u64,
    done: Result<(), Error>,
    after: LedgerView,
)
    requires
        unfrozen(l.freeze(true, frozen_at), now, done, after),
    ensures
        done is Ok <==> now >= frozen_at + l.unfreeze_delay(),
        done matches Err(e) ==> e == Error::UnfreezeTooEarly,
        after.flag(DataKey::Frozen) == (done is Err),
{
    let frozen = l.freeze(true, frozen_at);
    law_freeze_is_stamped(l, true, frozen_at);
    law_bump_changes_no_value(frozen, DataKey::FrozenAt, DataKey::Frozen);
    law_bump_changes_no_value(
        frozen.bump(DataKey::FrozenAt),
        DataKey::MinUnfreezeDelay,
        DataKey::Frozen,
    );
    law_freeze_is_stamped(frozen.window_touched(), false, now);
}

/// A configured delay is the one that counts from then on.
pub proof fn law_configured_delay_counts(l: LedgerView, delay: u64)
    ensures
        l.store(DataKey::MinUnfreezeDelay, Stored::Count(delay)).unfreeze_delay() == delay,
        l.store(DataKey::MinUnfreezeDelay, Stored::Count(delay)).frozen_at() == l.frozen_at(),
{
    lemma_other_key(DataKey::MinUnfreezeDelay, DataKey::FrozenAt);
}

/// Once a freeze can be undone, it can be undone from then on.
pub proof fn law_window_stays_open(l: LedgerView, now: u64, later: u64)
    requires
        l.may_unfreeze(now),
        now <= later,
    ensures
        l.may_unfreeze(later),
{
}

/// With any delay that is accepted, and with the default, a freeze can be undone
/// once it has stood for the maximum.
pub proof fn law_no_freeze_is_for_good(l: LedgerView, delay: u64, now: u64)
    requires
        delay <= MAX_UNFREEZE_DELAY,
        now >= l.frozen_at() + MAX_UNFREEZE_DELAY,
    ensures
        l.store(DataKey::MinUnfreezeDelay, Stored::Count(delay)).may_unfreeze(now),
        !l.has(DataKey::MinUnfreezeDelay) ==> l.may_unfreeze(now),
{
    law_configured_delay_counts(l, delay);
}

// --- Milestones ---

/// Storing a milestone changes that milestone and no other, in whatever layout
/// the milestones were stored before.
pub proof fn law_milestone_write_is_local(
    l: LedgerView,
    index: u32,
    data: MilestoneData,
    other: u32,
)
    requires
        l.milestones_sound(),
        index == l.milestones().len() ==> index < u32::MAX,
    ensures
        l.with_milestone(index, data).milestone_at(index) == Some(data),
        other != index ==> l.with_milestone(index, data).milestone_at(other) == l.milestone_at(
            other,
        ),
{
    let milestones = l.milestones();
    let touched = l.milestones_touched();
    let after = l.with_milestone(index, data);
    assert forall|i: u32| DataKey::MilestonesVec.parts() != #[trigger] DataKey::MilestoneData(
        i,
    ).parts() by {
        if DataKey::MilestonesVec.parts() == DataKey::MilestoneData(i).parts() {
            lemma_keys_are_distinct(DataKey::MilestonesVec, DataKey::MilestoneData(i));
        }
    }
    lemma_touched_milestones(l);
    if index <= milestones.len() {
        let stored = if index < milestones.len() {
            milestones.update(index as int, data)
        } else {
            milestones.push(data)
        };
        law_milestones_survive(touched, stored);
        assert(after.has(DataKey::MilestoneData(other)) == l.has(DataKey::MilestoneData(other)));
        if other > milestones.len() {
            assert(after.milestones().len() <= other);
        }
    } else {
        assert forall|i: u32| i != index implies #[trigger] DataKey::MilestoneData(i).parts()
            != DataKey::MilestoneData(index).parts() by {
            if DataKey::MilestoneData(i).parts() == DataKey::MilestoneData(index).parts() {
                lemma_keys_are_distinct(DataKey::MilestoneData(i), DataKey::MilestoneData(index));
            }
        }
        if !l.has(DataKey::MilestonesVec) {
            let n = l.legacy_len();
            assert(l.first_gap(n));
            assert(milestones.len() == n);
            assert(after.has(DataKey::MilestoneData(n as u32)) == l.has(
                DataKey::MilestoneData(n as u32),
            ));
            assert forall|i: u32| i < n implies #[trigger] after.has(
                DataKey::MilestoneData(i),
            ) by {
                assert(l.has(DataKey::MilestoneData(i)));
            }
            lemma_legacy_len(after, n);
            assert forall|i: int| 0 <= i < n implies after.legacy_milestone(i as u32)
                == #[trigger] l.legacy_milestone(i as u32) by {
                assert(l.has(DataKey::MilestoneData(i as u32)));
            }
            assert(after.milestones() =~= milestones);
        } else {
            assert(after.milestones() =~= milestones);
        }
        assert(MilestoneData::of_row(data.row()) == data);
    }
}

/// The first write among the milestones, or just behind the last, moves the whole
/// set into the one entry and keeps every other milestone.
pub proof fn law_first_write_moves_the_set(l: LedgerView, index: u32, data: MilestoneData)
    requires
        l.milestones_sound(),
        index <= l.milestones().len(),
    ensures
        l.with_milestone(index, data).has(DataKey::MilestonesVec),
        l.with_milestone(index, data).milestones() == if index < l.milestones().len() {
            l.milestones().update(index as int, data)
        } else {
            l.milestones().push(data)
        },
{
    let touched = l.milestones_touched();
    law_milestones_survive(touched, l.milestones().update(index as int, data));
    law_milestones_survive(touched, l.milestones().push(data));
}

/// The milestones that are read after unlocking are those with the unlocked ones
/// unlocked, whether or not there was anything to write.
pub proof fn law_unlocking_is_read_back(l: LedgerView, raised: i128)
    requires
        l.milestones_sound(),
    ensures
        l.with_unlocked(raised).milestones() == after_unlock(l.milestones(), raised),
{
    let milestones = l.milestones();
    let touched = l.milestones_touched();
    if newly_unlocked(milestones, raised).len() > 0 {
        law_milestones_survive(touched, after_unlock(milestones, raised));
    } else {
        lemma_touched_milestones(l);
        lemma_empty_list_means_none(milestones, raised, milestones.len());
        assert(after_unlock(milestones, raised) =~= milestones);
    }
}

pub(crate) proof fn lemma_empty_list_means_none(milestones: Seq<MilestoneData>, raised: i128, n: nat)
    requires
        n <= milestones.len(),
        unlocked_up_to(milestones, raised, n).len() == 0,
    ensures
        forall|i: int| 0 <= i < n ==> !#[trigger] unlocks(milestones, raised, i),
    decreases n,
{
    if n > 0 {
        lemma_empty_list_means_none(milestones, raised, (n - 1) as nat);
    }
}

/// A second unlocking for the same amount, or for a lower one, unlocks nothing and
/// writes nothing.
pub proof fn law_second_unlocking_writes_nothing(l: LedgerView, raised: i128, lower: i128)
    requires
        l.milestones_sound(),
        lower <= raised,
    ensures
        ({
            let once = l.with_unlocked(raised);
            &&& newly_unlocked(once.milestones(), lower) == Seq::<(u32, i128)>::empty()
            &&& once.with_unlocked(lower) == once.milestones_touched()
        }),
{
    law_unlocking_is_read_back(l, raised);
    law_second_unlock_finds_nothing(l.milestones(), raised, lower);
}

/// Unlocking changes nothing but the status of milestones that are locked, and
/// those become unlocked.
pub proof fn law_unlock_only_unlocks(milestones: Seq<MilestoneData>, raised: i128, i: int)
    requires
        0 <= i < milestones.len(),
    ensures
        ({
            let after = after_unlock(milestones, raised);
            &&& after.len() == milestones.len()
            &&& after[i].target_amount == milestones[i].target_amount
            &&& after[i].status != milestones[i].status ==> milestones[i].status is Locked
                && after[i].status is Unlocked
        }),
{
}

/// Whether the targets ascend.
pub open spec fn ascending(milestones: Seq<MilestoneData>) -> bool {
    forall|i: int, j: int|
        0 <= i <= j < milestones.len() ==> (#[trigger] milestones[i]).target_amount <= (
        #[trigger] milestones[j]).target_amount
}

/// Where targets ascend, the scan misses nothing: exactly the locked milestones
/// whose targets have been raised are unlocked.
pub proof fn law_unlock_misses_nothing(milestones: Seq<MilestoneData>, raised: i128, i: int)
    requires
        ascending(milestones),
        0 <= i < milestones.len(),
    ensures
        unlocks(milestones, raised, i) <==> milestones[i].status is Locked
            && milestones[i].target_amount <= raised,
        after_unlock(milestones, raised)[i].status is Locked ==> milestones[i].target_amount
            > raised,
{
}

/// The list of unlocked milestones names exactly those whose status changed, each
/// with its target.
pub proof fn law_unlocked_list_is_exact(
    milestones: Seq<MilestoneData>,
    raised: i128,
    index: u32,
    target: i128,
)
    requires
        milestones.len() <= u32::MAX,
    ensures
        newly_unlocked(milestones, raised).contains((index, target)) <==> index
            < milestones.len() && unlocks(milestones, raised, index as int) && target
            == milestones[index as int].target_amount,
{
    lemma_unlocked_up_to_is_exact(milestones, raised, milestones.len(), index, target);
}

proof fn lemma_unlocked_up_to_is_exact(
    milestones: Seq<MilestoneData>,
    raised: i128,
    n: nat,
    index: u32,
    target: i128,
)
    requires
        n <= milestones.len() <= u32::MAX,
    ensures
        unlocked_up_to(milestones, raised, n).contains((index, target)) <==> index < n && unlocks(
            milestones,
            raised,
            index as int,
        ) && target == milestones[index as int].target_amount,
    decreases n,
{
    if n > 0 {
        let i = (n - 1) as nat;
        let before = unlocked_up_to(milestones, raised, i);
        lemma_unlocked_up_to_is_exact(milestones, raised, i, index, target);
        if unlocks(milestones, raised, i as int) {
            let item = (i as u32, milestones[i as int].target_amount);
            let list = before.push(item);
            assert(list[before.len() as int] == item);
            if before.contains((index, target)) {
                let k = choose|k: int| 0 <= k < before.len() && before[k] == (index, target);
                assert(list[k] == (index, target));
            }
            if list.contains((index, target)) && (index, target) != item {
                let k = choose|k: int| 0 <= k < list.len() && list[k] == (index, target);
                assert(before[k] == (index, target));
            }
        }
    }
}

/// The list of unlocked milestones is in the order of their indexes.
pub proof fn law_unlocked_list_is_ordered(milestones: Seq<MilestoneData>, raised: i128)
    requires
        milestones.len() <= u32::MAX,
    ensures
        forall|a: int, b: int|
            0 <= a < b < newly_unlocked(milestones, raised).len() ==> (#[trigger] newly_unlocked(
                milestones,
                raised,
            )[a]).0 < (#[trigger] newly_unlocked(milestones, raised)[b]).0,
{
    lemma_unlocked_up_to_is_ordered(milestones, raised, milestones.len());
}

proof fn lemma_unlocked_up_to_is_ordered(milestones: Seq<MilestoneData>, raised: i128, n: nat)
    requires
        n <= milestones.len() <= u32::MAX,
    ensures
        forall|a: int|
            0 <= a < unlocked_up_to(milestones, raised, n).len() ==> (#[trigger] unlocked_up_to(
                milestones,
                raised,
                n,
            )[a]).0 < n,
        forall|a: int, b: int|
            0 <= a < b < unlocked_up_to(milestones, raised, n).len() ==> (
            #[trigger] unlocked_up_to(milestones, raised, n)[a]).0 < (#[trigger] unlocked_up_to(
                milestones,
                raised,
                n,
            )[b]).0,
    decreases n,
{
    if n > 0 {
        let before = unlocked_up_to(milestones, raised, (n - 1) as nat);
        let list = unlocked_up_to(milestones, raised, n);
        lemma_unlocked_up_to_is_ordered(milestones, raised, (n - 1) as nat);
        assert(forall|a: int| 0 <= a < before.len() ==> list[a] == #[trigger] before[a]);
        assert forall|a: int| 0 <= a < list.len() implies (#[trigger] list[a]).0 < n by {
            if a < before.len() {
                assert(before[a].0 < n - 1);
            }
        }
        assert forall|a: int, b: int| 0 <= a < b < list.len() implies (#[trigger] list[a]).0 < (
        #[trigger] list[b]).0 by {
            assert(before[a].0 < n - 1);
            if b < before.len() {
                assert(before[a].0 < before[b].0);
            }
        }
    }
}

/// Unlocking again for the same amount, or for a lower one, finds nothing to
/// unlock.
pub proof fn law_second_unlock_finds_nothing(
    milestones: Seq<MilestoneData>,
    raised: i128,
    lower: i128,
)
    requires
        lower <= raised,
    ensures
        newly_unlocked(after_unlock(milestones, raised), lower) == Seq::<(u32, i128)>::empty(),
        after_unlock(after_unlock(milestones, raised), lower) == after_unlock(milestones, raised),
{
    let once = after_unlock(milestones, raised);
    assert forall|i: int| 0 <= i < once.len() implies !#[trigger] unlocks(once, lower, i) by {
        if reached(once, lower, i) {
            assert forall|j: int| 0 <= j <= i implies (#[trigger] milestones[j]).target_amount
                <= raised by {
                assert(once[j].target_amount <= lower);
            }
        }
    }
    lemma_nothing_more(once, lower, 0, once.len());
    assert(after_unlock(once, lower) =~= once);
}

/// Unlocking step by step, as the raised amount grows, comes to the same as
/// unlocking once for the final amount: in the milestones, and in what is
/// reported.
pub proof fn law_unlocking_goes_step_by_step(
    milestones: Seq<MilestoneData>,
    less: i128,
    more: i128,
)
    requires
        less <= more,
    ensures
        after_unlock(after_unlock(milestones, less), more) == after_unlock(milestones, more),
        newly_unlocked(milestones, less) + newly_unlocked(after_unlock(milestones, less), more)
            == newly_unlocked(milestones, more),
{
    let once = after_unlock(milestones, less);
    assert forall|i: int| 0 <= i < milestones.len() implies #[trigger] unlocks(once, more, i) == (
    unlocks(milestones, more, i) && !unlocks(milestones, less, i)) by {
        lemma_unlocking_keeps_reach(milestones, less, more, i);
    }
    assert(after_unlock(once, more) =~= after_unlock(milestones, more));
    lemma_lists_join(milestones, less, more, milestones.len());
}

/// Unlocking moves no target, so the scan gets as far as before.
proof fn lemma_unlocking_keeps_reach(
    milestones: Seq<MilestoneData>,
    less: i128,
    more: i128,
    i: int,
)
    requires
        0 <= i < milestones.len(),
    ensures
        reached(after_unlock(milestones, less), more, i) == reached(milestones, more, i),
{
    let once = after_unlock(milestones, less);
    if reached(once, more, i) {
        assert forall|j: int| 0 <= j <= i implies (#[trigger] milestones[j]).target_amount
            <= more by {
            assert(once[j].target_amount <= more);
        }
    }
}

/// Among the first `n` milestones, what the first step and the second step unlock
/// is what one step unlocks.
proof fn lemma_lists_join(milestones: Seq<MilestoneData>, less: i128, more: i128, n: nat)
    requires
        less <= more,
        n <= milestones.len(),
    ensures
        unlocked_up_to(milestones, less, n) + unlocked_up_to(
            after_unlock(milestones, less),
            more,
            n,
        ) == unlocked_up_to(milestones, more, n),
    decreases n,
{
    let once = after_unlock(milestones, less);
    if n > 0 {
        let i = (n - 1) as nat;
        lemma_lists_join(milestones, less, more, i);
        lemma_unlocking_keeps_reach(milestones, less, more, i as int);
        if unlocks(milestones, less, i as int) {
            // All before `i` has been unlocked already.
            assert forall|j: int| 0 <= j < i implies !#[trigger] unlocks(once, more, j) by {
                assert(reached(milestones, less, j));
            }
            lemma_nothing_more(once, more, 0, i);
        }
        assert(unlocked_up_to(milestones, less, n) + unlocked_up_to(once, more, n)
            =~= unlocked_up_to(milestones, more, n));
    }
}

/// More raised never unlocks less.
pub proof fn law_more_raised_unlocks_no_less(
    milestones: Seq<MilestoneData>,
    less: i128,
    more: i128,
    i: int,
)
    requires
        less <= more,
        0 <= i < milestones.len(),
        unlocks(milestones, less, i),
    ensures
        unlocks(milestones, more, i),
{
}

} // verus!
