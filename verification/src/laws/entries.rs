//! What the operations do, told entry by entry.
//!
//! The laws below speak of the entries of the ledger themselves: which keys are
//! there, what value stands under them and how long they live. They fix what each
//! operation finds and leaves, whatever else the ledger holds.

use crate::coherence::is_total;
use crate::freeze::unfrozen;
use crate::host::{
    extended_ttl, in_contract, ledger_limits, persistent_entries, temporary_entries, Entry,
    KeyPart, Stored,
};
use crate::keys::{lemma_keys_are_distinct, lemma_other_key, DataKey};
use crate::ledger::{
    ledger, legacy_keys, lemma_legacy_len, lemma_touched_milestones, LedgerView,
    PERSISTENT_BUMP_AMOUNT, PERSISTENT_BUMP_THRESHOLD, TEMPORARY_BUMP_THRESHOLD, TEMPORARY_TTL,
};
use crate::milestones::{
    after_unlock, are_rows, milestones_of, newly_unlocked, rows_of, unlocks,
};
use crate::storage::added;
use crate::types::{
    AssetInfo, CampaignData, CampaignReport, CampaignStatus, DonorRecord, Error, MilestoneData,
    MilestoneRow, MilestoneStatus,
};
use crate::{DEFAULT_MIN_UNFREEZE_DELAY, MAX_UNFREEZE_DELAY};
use soroban_sdk::{Address, Env};
use vstd::prelude::*;

verus! {

// --- The ledger and its keys ---

/// The ledger of an environment is what the host holds for it.
pub proof fn law_ledger_is_what_the_host_holds(env: Env)
    ensures
        ledger(env).persistent == persistent_entries(env),
        ledger(env).temporary == temporary_entries(env),
        ledger(env).limits == ledger_limits(env),
        ledger(env).running == in_contract(env),
{
}

/// A key is its name and its arguments, in order.
pub proof fn law_key_is_name_and_arguments(index: u32, a: Address, b: Address)
    ensures
        DataKey::CampaignData.parts() == seq![KeyPart::Tag("CampaignData"@)],
        DataKey::MilestonesVec.parts() == seq![KeyPart::Tag("MilestonesVec"@)],
        DataKey::MilestoneData(index).parts() == seq![
            KeyPart::Tag("MilestoneData"@),
            KeyPart::Index(index),
        ],
        DataKey::DonorData(a).parts() == seq![KeyPart::Tag("DonorData"@), KeyPart::Party(a)],
        DataKey::DonorAssetDonation(a, b).parts() == seq![
            KeyPart::Tag("DonorAssetDonation"@),
            KeyPart::Party(a),
            KeyPart::Party(b),
        ],
        DataKey::TotalRaised.parts() == seq![KeyPart::Tag("TotalRaised"@)],
        DataKey::DonationCount.parts() == seq![KeyPart::Tag("DonationCount"@)],
        DataKey::UniqueDonorCount.parts() == seq![KeyPart::Tag("UniqueDonorCount"@)],
        DataKey::ReleaseCount.parts() == seq![KeyPart::Tag("ReleaseCount"@)],
        DataKey::AssetRaised(a).parts() == seq![KeyPart::Tag("AssetRaised"@), KeyPart::Party(a)],
        DataKey::ContractStatus.parts() == seq![KeyPart::Tag("ContractStatus"@)],
        DataKey::ReentrancyLock.parts() == seq![KeyPart::Tag("ReentrancyLock"@)],
        DataKey::Frozen.parts() == seq![KeyPart::Tag("Frozen"@)],
        DataKey::FrozenAt.parts() == seq![KeyPart::Tag("FrozenAt"@)],
        DataKey::MinUnfreezeDelay.parts() == seq![KeyPart::Tag("MinUnfreezeDelay"@)],
        DataKey::BlockedAsset(a).parts() == seq![KeyPart::Tag("BlockedAsset"@), KeyPart::Party(a)],
        DataKey::CachedReport.parts() == seq![KeyPart::Tag("CachedReport"@)],
{
}

/// Ttls are days counted in ledgers of five seconds; delays are counted in
/// seconds.
pub proof fn law_figures()
    ensures
        PERSISTENT_BUMP_THRESHOLD * 5 == 30 * 86_400,
        PERSISTENT_BUMP_AMOUNT * 5 == 60 * 86_400,
        TEMPORARY_TTL * 5 == 7 * 86_400,
        TEMPORARY_BUMP_THRESHOLD * 5 == 86_400,
        DEFAULT_MIN_UNFREEZE_DELAY == 60 * 60,
        MAX_UNFREEZE_DELAY == 30 * 86_400,
{
}

/// The host serves storage calls to a running contract whose ledger has numbers
/// for all that it looks ahead to, and a bump asks for its own reach too.
pub proof fn law_when_the_host_serves(l: LedgerView)
    ensures
        l.serving() <==> l.running && l.limits.fresh_persistent <= l.limits.ahead
            && l.limits.fresh_temporary <= l.limits.ahead && l.limits.max_ttl <= l.limits.ahead,
        l.ready() <==> l.serving() && 1_036_800 <= l.limits.ahead,
        l.temporary_ttl_fits() <==> 120_960 <= l.limits.max_ttl,
{
}

// --- Finding entries ---

/// An entry is looked up under its own key, among the persistent or among the
/// temporary ones.
pub proof fn law_lookup_is_by_key(l: LedgerView, key: DataKey)
    ensures
        l.has(key) <==> l.persistent.contains_key(key.parts()),
        l.has(key) ==> l.persistent[key.parts()] == (Entry {
            value: l.value(key),
            ttl: l.ttl(key),
        }),
        l.temp_has(key) <==> l.temporary.contains_key(key.parts()),
        l.temp_has(key) ==> l.temporary[key.parts()].value == l.temp_value(key),
{
}

/// An amount that is read is the amount that stands under its key, and zero where
/// nothing stands there, whatever other entries there are.
pub proof fn law_amount_is_what_stands_there(l: LedgerView, key: DataKey, amount: i128)
    ensures
        !l.persistent.contains_key(key.parts()) ==> l.amount(key) == 0,
        l.persistent.contains_key(key.parts()) && l.persistent[key.parts()].value
            == Stored::Amount(amount) ==> l.amount(key) == amount,
{
}

/// A count that is read is the count that stands under its key, and the default
/// where nothing stands there, whatever other entries there are.
pub proof fn law_count_is_what_stands_there(
    l: LedgerView,
    key: DataKey,
    default: u64,
    count: u64,
)
    ensures
        !l.persistent.contains_key(key.parts()) ==> l.count(key, default) == default,
        l.persistent.contains_key(key.parts()) && l.persistent[key.parts()].value
            == Stored::Count(count) ==> l.count(key, default) == count,
{
}

/// A word that is read is the word that stands under its key, and zero where
/// nothing stands there, whatever other entries there are.
pub proof fn law_word_is_what_stands_there(l: LedgerView, key: DataKey, word: u32)
    ensures
        !l.persistent.contains_key(key.parts()) ==> l.word(key) == 0,
        l.persistent.contains_key(key.parts()) && l.persistent[key.parts()].value == Stored::Word(
            word,
        ) ==> l.word(key) == word,
{
}

/// A flag that is read is the flag that stands under its key, and `false` where
/// nothing stands there, whatever other entries there are.
pub proof fn law_flag_is_what_stands_there(l: LedgerView, key: DataKey, flag: bool)
    ensures
        !l.persistent.contains_key(key.parts()) ==> !l.flag(key),
        l.persistent.contains_key(key.parts()) && l.persistent[key.parts()].value == Stored::Flag(
            flag,
        ) ==> l.flag(key) == flag,
{
}

/// What was stored is what is read next, and no write under another key comes
/// between.
pub proof fn law_stored_figures_are_read_back(
    l: LedgerView,
    key: DataKey,
    amount: i128,
    count: u64,
    default: u64,
    word: u32,
    flag: bool,
    other: DataKey,
    value: Stored,
)
    requires
        other != key,
    ensures
        l.store(key, Stored::Amount(amount)).amount(key) == amount,
        l.store(key, Stored::Count(count)).count(key, default) == count,
        l.store(key, Stored::Word(word)).word(key) == word,
        l.store(key, Stored::Flag(flag)).flag(key) == flag,
        l.store(key, Stored::Amount(amount)).store(other, value).amount(key) == amount,
        l.store(key, Stored::Count(count)).store(other, value).count(key, default) == count,
        l.store(key, Stored::Word(word)).store(other, value).word(key) == word,
        l.store(key, Stored::Flag(flag)).store(other, value).flag(key) == flag,
        l.store(other, value).amount(key) == l.amount(key),
        l.store(other, value).count(key, default) == l.count(key, default),
        l.store(other, value).word(key) == l.word(key),
        l.store(other, value).flag(key) == l.flag(key),
{
    lemma_other_key(other, key);
}

/// A missing entry can always be read, and so can every entry that holds what an
/// operation stores there.
pub proof fn law_what_is_stored_can_be_read(
    l: LedgerView,
    key: DataKey,
    campaign: CampaignData,
    donor: DonorRecord,
    report: CampaignReport,
    milestone: MilestoneData,
    milestones: Seq<MilestoneData>,
    amount: i128,
    count: u64,
    word: u32,
    flag: bool,
)
    ensures
        !l.persistent.contains_key(key.parts()) ==> l.sound(key),
        !l.temporary.contains_key(key.parts()) ==> l.temp_sound(key),
        l.persistent.contains_key(key.parts()) && l.persistent[key.parts()].value == (match key {
            DataKey::CampaignData => Stored::Campaign(campaign.row()),
            DataKey::MilestonesVec => Stored::Milestones(rows_of(milestones)),
            DataKey::MilestoneData(_) => Stored::Milestone(milestone.row()),
            DataKey::DonorData(_) => Stored::Donor(donor.row()),
            DataKey::CachedReport => Stored::Report(report.row()),
            DataKey::DonorAssetDonation(_, _) => Stored::Amount(amount),
            DataKey::TotalRaised => Stored::Amount(amount),
            DataKey::AssetRaised(_) => Stored::Amount(amount),
            DataKey::DonationCount => Stored::Count(count),
            DataKey::ReleaseCount => Stored::Count(count),
            DataKey::FrozenAt => Stored::Count(count),
            DataKey::MinUnfreezeDelay => Stored::Count(count),
            DataKey::UniqueDonorCount => Stored::Word(word),
            DataKey::ContractStatus => Stored::Word(word),
            DataKey::ReentrancyLock => Stored::Flag(flag),
            DataKey::Frozen => Stored::Flag(flag),
            DataKey::BlockedAsset(_) => Stored::Flag(flag),
        }) ==> l.sound(key),
        l.temporary.contains_key(DataKey::ContractStatus.parts())
            && l.temporary[DataKey::ContractStatus.parts()].value == Stored::Word(word)
            ==> l.temp_sound(DataKey::ContractStatus),
{
    let rows = rows_of(milestones);
    assert forall|i: int| 0 <= i < rows.len() implies MilestoneData::is_row(
        #[trigger] rows[i],
    ) by {
        assert(rows[i] == milestones[i].row());
    }
}

/// On a coherent ledger no total is negative.
pub proof fn law_coherent_totals_are_not_negative(l: LedgerView, token: Address, amount: i128)
    requires
        l.coherent(),
    ensures
        l.persistent.contains_key(DataKey::TotalRaised.parts())
            && l.persistent[DataKey::TotalRaised.parts()].value == Stored::Amount(amount)
            ==> amount >= 0,
        l.persistent.contains_key(DataKey::AssetRaised(token).parts())
            && l.persistent[DataKey::AssetRaised(token).parts()].value == Stored::Amount(amount)
            ==> amount >= 0,
{
    assert(is_total(DataKey::TotalRaised) && is_total(DataKey::AssetRaised(token)));
    assert(l.amount(DataKey::TotalRaised) >= 0);
    assert(l.amount(DataKey::AssetRaised(token)) >= 0);
}

/// Entries of the right shape, totals that are not negative and milestones that
/// can be read are all that coherence asks for.
pub proof fn law_coherence_asks_for_no_more(l: LedgerView)
    requires
        forall|key: DataKey| #[trigger] l.sound(key),
        forall|key: DataKey| #[trigger] l.temp_sound(key),
        l.persistent.contains_key(DataKey::TotalRaised.parts()) ==> (
        l.persistent[DataKey::TotalRaised.parts()].value matches Stored::Amount(a) && a >= 0),
        forall|token: Address|
            l.persistent.contains_key(#[trigger] DataKey::AssetRaised(token).parts()) ==> (
            l.persistent[DataKey::AssetRaised(token).parts()].value matches Stored::Amount(a) && a
                >= 0),
        l.milestones_sound(),
    ensures
        l.coherent(),
{
    assert forall|key: DataKey| is_total(key) implies #[trigger] l.amount(key) >= 0 by {
        if let DataKey::AssetRaised(token) = key {
            assert(l.has(key) ==> l.persistent.contains_key(DataKey::AssetRaised(token).parts()));
        }
    }
}

// --- Writing and bumping entries ---

/// An extended ttl is never less than before. It is raised only where it had sunk
/// to the threshold, and then to what was asked for or to the longest there is.
pub proof fn law_extension_only_raises(ttl: u32, threshold: u32, extend_to: u32, max_ttl: u32)
    ensures
        extended_ttl(ttl, threshold, extend_to, max_ttl) >= ttl,
        ttl > threshold ==> extended_ttl(ttl, threshold, extend_to, max_ttl) == ttl,
        extended_ttl(ttl, threshold, extend_to, max_ttl) != ttl ==> extended_ttl(
            ttl,
            threshold,
            extend_to,
            max_ttl,
        ) == vstd::math::min(extend_to as int, max_ttl as int),
        ttl <= threshold ==> extended_ttl(ttl, threshold, extend_to, max_ttl) >= vstd::math::min(
            extend_to as int,
            max_ttl as int,
        ),
{
}

/// A bump extends the ttl of the one entry under its key, if there is one, and
/// changes nothing else on the ledger.
pub proof fn law_bump_entry_by_entry(l: LedgerView, key: DataKey, other: Seq<KeyPart>)
    ensures
        ({
            let after = l.bump(key);
            let k = key.parts();
            &&& after.temporary == l.temporary
            &&& after.limits == l.limits
            &&& after.running == l.running
            &&& after.persistent.contains_key(other) <==> l.persistent.contains_key(other)
            &&& other != k && l.persistent.contains_key(other) ==> after.persistent[other]
                == l.persistent[other]
            &&& l.persistent.contains_key(k) ==> after.persistent[k] == (Entry {
                value: l.persistent[k].value,
                ttl: extended_ttl(l.persistent[k].ttl, 518_400, 1_036_800, l.limits.max_ttl),
            })
        }),
{
}

/// A bump of many entries is a bump of each that is there, and changes nothing
/// else on the ledger.
pub proof fn law_bump_set_entry_by_entry(
    l: LedgerView,
    keys: Set<Seq<KeyPart>>,
    k: Seq<KeyPart>,
)
    ensures
        ({
            let after = l.bump_set(keys);
            &&& after.temporary == l.temporary
            &&& after.limits == l.limits
            &&& after.running == l.running
            &&& after.persistent.contains_key(k) <==> l.persistent.contains_key(k)
            &&& l.persistent.contains_key(k) && !keys.contains(k) ==> after.persistent[k]
                == l.persistent[k]
            &&& l.persistent.contains_key(k) && keys.contains(k) ==> after.persistent[k] == (
            Entry {
                value: l.persistent[k].value,
                ttl: extended_ttl(l.persistent[k].ttl, 518_400, 1_036_800, l.limits.max_ttl),
            })
        }),
{
}

/// A write puts the value under its key, with the ttl of the entry that was there
/// or of a fresh one, bumped, and changes nothing else on the ledger.
pub proof fn law_store_entry_by_entry(
    l: LedgerView,
    key: DataKey,
    value: Stored,
    other: Seq<KeyPart>,
)
    ensures
        ({
            let after = l.store(key, value);
            let k = key.parts();
            let ttl = if l.persistent.contains_key(k) {
                l.persistent[k].ttl
            } else {
                l.limits.fresh_persistent
            };
            &&& after.temporary == l.temporary
            &&& after.limits == l.limits
            &&& after.running == l.running
            &&& after.persistent.contains_key(k)
            &&& after.persistent[k] == (Entry {
                value,
                ttl: extended_ttl(ttl, 518_400, 1_036_800, l.limits.max_ttl),
            })
            &&& other != k ==> (after.persistent.contains_key(other)
                <==> l.persistent.contains_key(other))
            &&& other != k ==> after.persistent[other] == l.persistent[other]
        }),
{
}

/// A temporary write puts the value under its key, with the ttl of the entry that
/// was there or of a fresh one, raised to a week, and changes nothing else on the
/// ledger.
pub proof fn law_temporary_write_entry_by_entry(
    l: LedgerView,
    key: DataKey,
    value: Stored,
    threshold: u32,
    other: Seq<KeyPart>,
)
    ensures
        ({
            let after = l.temp_put(key, value).temp_extend(key, threshold);
            let k = key.parts();
            let ttl = if l.temporary.contains_key(k) {
                l.temporary[k].ttl
            } else {
                l.limits.fresh_temporary
            };
            &&& after.persistent == l.persistent
            &&& after.limits == l.limits
            &&& after.running == l.running
            &&& after.temporary.contains_key(k)
            &&& after.temporary[k] == (Entry {
                value,
                ttl: extended_ttl(ttl, threshold, 120_960, l.limits.max_ttl),
            })
            &&& other != k ==> (after.temporary.contains_key(other)
                <==> l.temporary.contains_key(other))
            &&& other != k ==> after.temporary[other] == l.temporary[other]
        }),
{
}

/// Extending a temporary entry keeps its value and changes nothing else on the
/// ledger; removing one removes that one only.
pub proof fn law_temporary_access_entry_by_entry(
    l: LedgerView,
    key: DataKey,
    threshold: u32,
    other: Seq<KeyPart>,
)
    ensures
        ({
            let extended = l.temp_extend(key, threshold);
            let removed = l.temp_remove(key);
            let k = key.parts();
            &&& extended.persistent == l.persistent && removed.persistent == l.persistent
            &&& extended.limits == l.limits && removed.limits == l.limits
            &&& extended.running == l.running && removed.running == l.running
            &&& l.temporary.contains_key(k) ==> extended.temporary.contains_key(k)
                && extended.temporary[k] == (Entry {
                value: l.temporary[k].value,
                ttl: extended_ttl(l.temporary[k].ttl, threshold, 120_960, l.limits.max_ttl),
            })
            &&& !removed.temporary.contains_key(k)
            &&& other != k ==> (extended.temporary.contains_key(other)
                <==> l.temporary.contains_key(other)) && (removed.temporary.contains_key(other)
                <==> l.temporary.contains_key(other))
            &&& other != k && l.temporary.contains_key(other) ==> extended.temporary[other]
                == l.temporary[other] && removed.temporary[other] == l.temporary[other]
        }),
{
}

/// Taking the lock puts the one lock entry there, raised to a week, and changes
/// nothing else on the ledger.
pub proof fn law_lock_entry_by_entry(l: LedgerView, other: Seq<KeyPart>)
    ensures
        ({
            let after = l.locked();
            let k = DataKey::ReentrancyLock.parts();
            let ttl = if l.temporary.contains_key(k) {
                l.temporary[k].ttl
            } else {
                l.limits.fresh_temporary
            };
            &&& after.persistent == l.persistent
            &&& after.limits == l.limits
            &&& after.running == l.running
            &&& after.temporary.contains_key(k)
            &&& after.temporary[k] == (Entry {
                value: Stored::Flag(true),
                ttl: extended_ttl(ttl, 120_960, 120_960, l.limits.max_ttl),
            })
            &&& other != k ==> (after.temporary.contains_key(other)
                <==> l.temporary.contains_key(other))
            &&& other != k ==> after.temporary[other] == l.temporary[other]
        }),
{
}

// --- Records ---

/// The row of a campaign holds every field of it, in order.
pub proof fn law_campaign_row_holds_every_field(d: CampaignData)
    ensures
        d.row().0 == d.creator,
        d.row().1 == d.goal_amount,
        d.row().2 == d.raised_amount,
        d.row().3 == d.end_time,
        d.row().4 == (if d.status is Active {
            0u32
        } else {
            1u32
        }),
        d.row().5 == d.accepted_assets,
        d.row().6 == d.milestone_count,
        d.row().7 == d.min_donation_amount,
        d.row().8 == d.created_at_ledger,
        d.row().9 == d.created_at_time,
        d.row().10 == d.concluded_at_ledger,
        CampaignData::is_row(d.row()),
{
}

/// The row of a donor holds every field of it, in order, and a donor who is not
/// known has given nothing.
pub proof fn law_donor_row_holds_every_field(d: DonorRecord, donor: Address)
    ensures
        d.row().0 == d.donor,
        d.row().1 == d.total_donated,
        d.row().2 == d.asset.spec_token(),
        d.asset is Native ==> d.row().2 is None,
        d.asset matches AssetInfo::Token(token) ==> d.row().2 == Some(token),
        d.row().3 == d.last_donation_time,
        d.row().4 == d.last_donation_ledger,
        d.row().5 == d.donation_count,
        d.row().6 == d.refund_claimed,
        DonorRecord::spec_zero(donor).row() == (
            donor,
            0i128,
            None::<Address>,
            0u64,
            0u32,
            0u32,
            false,
        ),
{
}

/// The row of a report holds every field of it, in order.
pub proof fn law_report_row_holds_every_field(r: CampaignReport)
    ensures
        r.row() == (
            r.goal_amount,
            r.total_raised,
            r.donation_count,
            r.unique_donor_count,
            r.release_count,
        ),
{
}

/// The row of a milestone holds its target and its status, and gives both back.
pub proof fn law_milestone_row_gives_back_the_milestone(m: MilestoneData, row: MilestoneRow)
    ensures
        m.row().0 == m.target_amount,
        m.row().1 == (match m.status {
            MilestoneStatus::Locked => 0u32,
            MilestoneStatus::Unlocked => 1u32,
            MilestoneStatus::Released => 2u32,
        }),
        MilestoneData::is_row(m.row()),
        MilestoneData::of_row(m.row()) == m,
        MilestoneData::is_row(row) ==> MilestoneData::of_row(row).row() == row,
{
}

/// Statuses are written as their codes, and no two alike.
pub proof fn law_status_codes_are_distinct(
    a: CampaignStatus,
    b: CampaignStatus,
    c: MilestoneStatus,
    d: MilestoneStatus,
)
    ensures
        a.spec_code() == b.spec_code() ==> a == b,
        c.spec_code() == d.spec_code() ==> c == d,
        CampaignStatus::Active.spec_code() == 0,
        CampaignStatus::Ended.spec_code() == 1,
        MilestoneStatus::Locked.spec_code() == 0,
        MilestoneStatus::Unlocked.spec_code() == 1,
        MilestoneStatus::Released.spec_code() == 2,
        CampaignStatus::is_code(a.spec_code()),
        MilestoneStatus::is_code(c.spec_code()),
        MilestoneStatus::of_code(c.spec_code()) == c,
{
}

/// A code that no status is written as is not taken for one.
pub proof fn law_only_codes_are_taken_for_statuses(code: u32)
    ensures
        CampaignStatus::is_code(code) <==> exists|s: CampaignStatus| #[trigger] s.spec_code()
            == code,
        MilestoneStatus::is_code(code) <==> exists|s: MilestoneStatus| #[trigger] s.spec_code()
            == code,
{
    assert(CampaignStatus::Active.spec_code() == 0 && CampaignStatus::Ended.spec_code() == 1);
    assert(MilestoneStatus::Locked.spec_code() == 0 && MilestoneStatus::Unlocked.spec_code() == 1
        && MilestoneStatus::Released.spec_code() == 2);
}

/// No two errors are seen under one number, and each is seen under its own.
pub proof fn law_error_codes_are_distinct(a: Error, b: Error)
    ensures
        a.spec_code() == b.spec_code() ==> a == b,
        Error::NotInitialized.spec_code() == 1,
        Error::MilestoneNotFound.spec_code() == 2,
        Error::InvalidAmount.spec_code() == 3,
        Error::Overflow.spec_code() == 4,
        Error::ReentrantCall.spec_code() == 5,
        Error::ContractFrozen.spec_code() == 80,
        Error::UnfreezeTooEarly.spec_code() == 103,
        Error::UnfreezeDelayTooLong.spec_code() == 104,
{
}

/// Rows stand for milestones one by one.
pub proof fn law_rows_stand_for_milestones(
    milestones: Seq<MilestoneData>,
    rows: Seq<MilestoneRow>,
    i: int,
)
    ensures
        rows_of(milestones).len() == milestones.len(),
        milestones_of(rows).len() == rows.len(),
        0 <= i < milestones.len() ==> rows_of(milestones)[i] == milestones[i].row(),
        0 <= i < rows.len() ==> milestones_of(rows)[i] == MilestoneData::of_row(rows[i]),
        are_rows(rows_of(milestones)),
        milestones_of(rows_of(milestones)) == milestones,
{
    let all = rows_of(milestones);
    assert forall|j: int| 0 <= j < all.len() implies MilestoneData::is_row(#[trigger] all[j]) by {
        assert(all[j] == milestones[j].row());
    }
    assert(milestones_of(all) =~= milestones);
}

// --- Totals ---

/// An addition to a total: what it answers, and what stands under the key after
/// it, by what stood there before and by `delta`.
pub proof fn law_addition_by_what_stood_there(
    before: LedgerView,
    key: DataKey,
    delta: i128,
    total: Result<i128, Error>,
    after: LedgerView,
    current: i128,
    other: Seq<KeyPart>,
)
    requires
        added(before, key, delta, total, after),
        if before.persistent.contains_key(key.parts()) {
            before.persistent[key.parts()].value == Stored::Amount(current)
        } else {
            current == 0
        },
    ensures
        delta <= 0 ==> total == Err::<i128, Error>(Error::InvalidAmount) && after == before,
        delta > 0 && current + delta > i128::MAX ==> total == Err::<i128, Error>(Error::Overflow),
        delta > 0 && current + delta < 0 ==> total == Err::<i128, Error>(Error::InvalidAmount),
        delta > 0 && 0 <= current + delta <= i128::MAX ==> total == Ok::<i128, Error>(
            (current + delta) as i128,
        ) && after.persistent.contains_key(key.parts()) && after.persistent[key.parts()].value
            == Stored::Amount((current + delta) as i128),
        delta > 0 && before.persistent.contains_key(key.parts())
            ==> after.persistent[key.parts()].ttl == extended_ttl(
            before.persistent[key.parts()].ttl,
            518_400,
            1_036_800,
            before.limits.max_ttl,
        ),
        total is Ok && !before.persistent.contains_key(key.parts())
            ==> after.persistent[key.parts()].ttl == extended_ttl(
            before.limits.fresh_persistent,
            518_400,
            1_036_800,
            before.limits.max_ttl,
        ),
        total is Err ==> (after.persistent.contains_key(key.parts())
            <==> before.persistent.contains_key(key.parts())),
        total is Err && before.persistent.contains_key(key.parts())
            ==> after.persistent[key.parts()].value == Stored::Amount(current),
        other != key.parts() ==> (after.persistent.contains_key(other)
            <==> before.persistent.contains_key(other)),
        other != key.parts() ==> after.persistent[other] == before.persistent[other],
        after.temporary == before.temporary,
        after.limits == before.limits,
        after.running == before.running,
{
}

/// The first donation: on a ledger without a total, whatever else it holds, an
/// accepted addition answers what was added, and that is then the total.
pub proof fn law_first_addition_starts_from_zero(
    before: LedgerView,
    key: DataKey,
    delta: i128,
    total: Result<i128, Error>,
    after: LedgerView,
)
    requires
        added(before, key, delta, total, after),
        !before.persistent.contains_key(key.parts()),
        delta > 0,
    ensures
        before.amount(key) == 0,
        total == Ok::<i128, Error>(delta),
        after.amount(key) == delta,
{
}

// --- The freeze window ---

/// A change of the freeze flag writes the flag and the stamp, and no other value.
pub proof fn law_freeze_entry_by_entry(
    l: LedgerView,
    frozen: bool,
    now: u64,
    other: Seq<KeyPart>,
)
    ensures
        ({
            let after = l.freeze(frozen, now);
            let flag = DataKey::Frozen.parts();
            let stamp = DataKey::FrozenAt.parts();
            &&& after.persistent.contains_key(flag) && after.persistent[flag].value
                == Stored::Flag(frozen)
            &&& after.persistent.contains_key(stamp) && after.persistent[stamp].value
                == Stored::Count(now)
            &&& l.persistent.contains_key(flag) ==> after.persistent[flag].ttl == extended_ttl(
                l.persistent[flag].ttl,
                518_400,
                1_036_800,
                l.limits.max_ttl,
            )
            &&& !l.persistent.contains_key(flag) ==> after.persistent[flag].ttl == extended_ttl(
                l.limits.fresh_persistent,
                518_400,
                1_036_800,
                l.limits.max_ttl,
            )
            &&& l.persistent.contains_key(stamp) ==> after.persistent[stamp].ttl == extended_ttl(
                l.persistent[stamp].ttl,
                518_400,
                1_036_800,
                l.limits.max_ttl,
            )
            &&& !l.persistent.contains_key(stamp) ==> after.persistent[stamp].ttl == extended_ttl(
                l.limits.fresh_persistent,
                518_400,
                1_036_800,
                l.limits.max_ttl,
            )
            &&& other != flag && other != stamp ==> (after.persistent.contains_key(other)
                <==> l.persistent.contains_key(other))
            &&& other != flag && other != stamp ==> after.persistent[other] == l.persistent[other]
            &&& after.temporary == l.temporary
            &&& after.limits == l.limits
            &&& after.running == l.running
        }),
{
    lemma_other_key(DataKey::Frozen, DataKey::FrozenAt);
}

/// The stamp and the delay that count are those that stand on the ledger, with
/// zero and one hour where nothing stands there.
pub proof fn law_window_is_what_stands_there(l: LedgerView, at: u64, delay: u64, now: u64)
    requires
        if l.persistent.contains_key(DataKey::FrozenAt.parts()) {
            l.persistent[DataKey::FrozenAt.parts()].value == Stored::Count(at)
        } else {
            at == 0
        },
        if l.persistent.contains_key(DataKey::MinUnfreezeDelay.parts()) {
            l.persistent[DataKey::MinUnfreezeDelay.parts()].value == Stored::Count(delay)
        } else {
            delay == 3600
        },
    ensures
        l.frozen_at() == at,
        l.unfreeze_delay() == delay,
        l.may_unfreeze(now) <==> now >= at + delay,
{
}

/// A request to un-freeze is answered by the stamp and the delay that stand on the
/// ledger. Granted, it clears the flag and stamps the change; refused, it changes
/// no value.
pub proof fn law_unfreezing_by_what_stood_there(
    before: LedgerView,
    now: u64,
    done: Result<(), Error>,
    after: LedgerView,
    at: u64,
    delay: u64,
    other: Seq<KeyPart>,
)
    requires
        unfrozen(before, now, done, after),
        if before.persistent.contains_key(DataKey::FrozenAt.parts()) {
            before.persistent[DataKey::FrozenAt.parts()].value == Stored::Count(at)
        } else {
            at == 0
        },
        if before.persistent.contains_key(DataKey::MinUnfreezeDelay.parts()) {
            before.persistent[DataKey::MinUnfreezeDelay.parts()].value == Stored::Count(delay)
        } else {
            delay == 3600
        },
    ensures
        now >= at + delay ==> done == Ok::<(), Error>(()),
        now < at + delay ==> done == Err::<(), Error>(Error::UnfreezeTooEarly),
        done is Ok ==> after.persistent.contains_key(DataKey::Frozen.parts())
            && after.persistent[DataKey::Frozen.parts()].value == Stored::Flag(false),
        done is Ok ==> after.persistent.contains_key(DataKey::FrozenAt.parts())
            && after.persistent[DataKey::FrozenAt.parts()].value == Stored::Count(now),
        done is Err || (other != DataKey::Frozen.parts() && other != DataKey::FrozenAt.parts())
            ==> (after.persistent.contains_key(other) <==> before.persistent.contains_key(other))
            && (before.persistent.contains_key(other) ==> after.persistent[other].value
            == before.persistent[other].value),
        before.persistent.contains_key(other) && other != DataKey::Frozen.parts() && other
            != DataKey::FrozenAt.parts() && other != DataKey::MinUnfreezeDelay.parts()
            ==> after.persistent[other] == before.persistent[other],
        before.persistent.contains_key(DataKey::MinUnfreezeDelay.parts())
            ==> after.persistent[DataKey::MinUnfreezeDelay.parts()].ttl == extended_ttl(
            before.persistent[DataKey::MinUnfreezeDelay.parts()].ttl,
            518_400,
            1_036_800,
            before.limits.max_ttl,
        ),
        done is Ok ==> after.persistent[DataKey::Frozen.parts()].ttl == extended_ttl(
            if before.persistent.contains_key(DataKey::Frozen.parts()) {
                before.persistent[DataKey::Frozen.parts()].ttl
            } else {
                before.limits.fresh_persistent
            },
            518_400,
            1_036_800,
            before.limits.max_ttl,
        ),
        done is Err && before.persistent.contains_key(DataKey::Frozen.parts())
            ==> after.persistent[DataKey::Frozen.parts()]
            == before.persistent[DataKey::Frozen.parts()],
        done is Ok && !before.persistent.contains_key(DataKey::FrozenAt.parts())
            ==> after.persistent[DataKey::FrozenAt.parts()].ttl == extended_ttl(
            before.limits.fresh_persistent,
            518_400,
            1_036_800,
            before.limits.max_ttl,
        ),
        before.persistent.contains_key(DataKey::FrozenAt.parts())
            ==> after.persistent[DataKey::FrozenAt.parts()].ttl == extended_ttl(
            before.persistent[DataKey::FrozenAt.parts()].ttl,
            518_400,
            1_036_800,
            before.limits.max_ttl,
        ),
        after.temporary == before.temporary,
        after.limits == before.limits,
        after.running == before.running,
{
    lemma_other_key(DataKey::Frozen, DataKey::FrozenAt);
    lemma_other_key(DataKey::Frozen, DataKey::MinUnfreezeDelay);
    lemma_other_key(DataKey::FrozenAt, DataKey::MinUnfreezeDelay);
}

/// A freeze that is set at some time and asked to end at a later one: the second
/// request is granted exactly when the delay lies between the two, however often
/// the flag changed before, and then the stamp is the time of the second.
pub proof fn law_window_runs_from_the_last_freeze(
    l: LedgerView,
    first: u64,
    ended: u64,
    second: u64,
    now: u64,
    delay: u64,
    done: Result<(), Error>,
    after: LedgerView,
)
    requires
        if l.persistent.contains_key(DataKey::MinUnfreezeDelay.parts()) {
            l.persistent[DataKey::MinUnfreezeDelay.parts()].value == Stored::Count(delay)
        } else {
            delay == 3600
        },
        unfrozen(l.freeze(true, first).freeze(false, ended).freeze(true, second), now, done, after),
    ensures
        l.freeze(true, first).freeze(false, ended).freeze(true, second).frozen_at() == second,
        done is Ok <==> now >= second + delay,
        done is Ok ==> !after.flag(DataKey::Frozen) && after.frozen_at() == now,
        done is Err ==> after.flag(DataKey::Frozen) && after.frozen_at() == second,
{
    lemma_other_key(DataKey::Frozen, DataKey::FrozenAt);
    lemma_other_key(DataKey::Frozen, DataKey::MinUnfreezeDelay);
    lemma_other_key(DataKey::FrozenAt, DataKey::MinUnfreezeDelay);
}

/// A contract that is frozen on one ledger and asked to un-freeze on another,
/// with the entries as the freeze left them: the request is granted exactly when
/// the delay lies between the times of the two ledgers.
pub proof fn law_delay_lies_between_the_ledgers(
    l: LedgerView,
    later: LedgerView,
    delay: u64,
    done: Result<(), Error>,
    after: LedgerView,
)
    requires
        if l.persistent.contains_key(DataKey::MinUnfreezeDelay.parts()) {
            l.persistent[DataKey::MinUnfreezeDelay.parts()].value == Stored::Count(delay)
        } else {
            delay == 3600
        },
        later.persistent == l.freeze(true, l.limits.timestamp).persistent,
        unfrozen(later, later.limits.timestamp, done, after),
    ensures
        later.frozen_at() == l.limits.timestamp,
        done is Ok <==> later.limits.timestamp >= l.limits.timestamp + delay,
        done is Ok ==> after.frozen_at() == later.limits.timestamp,
{
    lemma_other_key(DataKey::Frozen, DataKey::FrozenAt);
    lemma_other_key(DataKey::Frozen, DataKey::MinUnfreezeDelay);
    lemma_other_key(DataKey::FrozenAt, DataKey::MinUnfreezeDelay);
}

// --- Milestones on the ledger ---

/// Milestones in the one entry are read as they are stored, target and status.
pub proof fn law_milestones_of_the_one_entry(
    l: LedgerView,
    rows: Seq<MilestoneRow>,
    i: int,
    m: MilestoneData,
)
    requires
        l.persistent.contains_key(DataKey::MilestonesVec.parts()),
        l.persistent[DataKey::MilestonesVec.parts()].value == Stored::Milestones(rows),
    ensures
        l.milestones().len() == rows.len(),
        0 <= i < rows.len() && rows[i] == m.row() ==> l.milestones()[i] == m,
        (forall|j: int| 0 <= j < rows.len() ==> (#[trigger] rows[j]).1 <= 2)
            ==> l.milestones_sound(),
{
}

/// Without the one entry, the milestones are those that have entries of their own,
/// from index 0 up to the first gap, each read as it is stored, target and status.
pub proof fn law_milestones_with_entries_of_their_own(
    l: LedgerView,
    n: nat,
    i: u32,
    m: MilestoneData,
)
    requires
        !l.persistent.contains_key(DataKey::MilestonesVec.parts()),
        n <= u32::MAX,
        !l.persistent.contains_key(DataKey::MilestoneData(n as u32).parts()),
        forall|j: u32|
            j < n ==> l.persistent.contains_key(#[trigger] DataKey::MilestoneData(j).parts()),
    ensures
        l.milestones().len() == n,
        i < n && l.persistent[DataKey::MilestoneData(i).parts()].value == Stored::Milestone(
            m.row(),
        ) ==> l.milestones()[i as int] == m,
        (forall|j: u32|
            j < n ==> (l.persistent[#[trigger] DataKey::MilestoneData(
                j,
            ).parts()].value matches Stored::Milestone(row) && row.1 <= 2))
            ==> l.milestones_sound(),
{
    assert forall|j: u32| j < n implies #[trigger] l.has(DataKey::MilestoneData(j)) by {
        assert(l.persistent.contains_key(DataKey::MilestoneData(j).parts()));
    }
    assert(l.first_gap(n));
    lemma_legacy_len(l, n);
    if forall|j: u32|
        j < n ==> (l.persistent[#[trigger] DataKey::MilestoneData(
            j,
        ).parts()].value matches Stored::Milestone(row) && row.1 <= 2) {
        assert forall|j: u32| j < n implies #[trigger] l.sound(DataKey::MilestoneData(j)) by {
            assert(l.persistent.contains_key(DataKey::MilestoneData(j).parts()));
        }
    }
}

/// A milestone that is not among the milestones is looked up under an entry of its
/// own and read as it is stored there.
pub proof fn law_milestone_at_an_index(l: LedgerView, index: u32, m: MilestoneData)
    ensures
        index < l.milestones().len() ==> l.milestone_at(index) == Some(
            l.milestones()[index as int],
        ),
        index >= l.milestones().len() && !l.persistent.contains_key(
            DataKey::MilestoneData(index).parts(),
        ) ==> l.milestone_at(index) is None,
        index >= l.milestones().len() && l.persistent.contains_key(
            DataKey::MilestoneData(index).parts(),
        ) && l.persistent[DataKey::MilestoneData(index).parts()].value == Stored::Milestone(
            m.row(),
        ) ==> l.milestone_at(index) == Some(m),
{
}

/// Reading the milestones bumps the entries that were read, and changes nothing
/// else on the ledger: neither in the one layout nor in the other.
pub proof fn law_milestone_read_entry_by_entry(
    l: LedgerView,
    n: nat,
    index: u32,
    other: Seq<KeyPart>,
)
    requires
        l.persistent.contains_key(DataKey::MilestonesVec.parts()) || (n <= u32::MAX
            && !l.persistent.contains_key(DataKey::MilestoneData(n as u32).parts()) && forall|
            j: u32,
        |
            j < n ==> l.persistent.contains_key(#[trigger] DataKey::MilestoneData(j).parts())),
    ensures
        ({
            let one = DataKey::MilestonesVec.parts();
            let own = DataKey::MilestoneData(index).parts();
            let all = l.milestones_touched();
            let single = l.milestone_touched(index);
            &&& all.temporary == l.temporary && single.temporary == l.temporary
            &&& all.limits == l.limits && single.limits == l.limits
            &&& all.running == l.running && single.running == l.running
            &&& all.persistent.contains_key(other) <==> l.persistent.contains_key(other)
            &&& single.persistent.contains_key(other) <==> l.persistent.contains_key(other)
            &&& l.persistent.contains_key(other) ==> all.persistent[other].value
                == l.persistent[other].value && single.persistent[other].value
                == l.persistent[other].value
            &&& l.persistent.contains_key(one) ==> all.persistent[one].ttl == extended_ttl(
                l.persistent[one].ttl,
                518_400,
                1_036_800,
                l.limits.max_ttl,
            )
            &&& l.persistent.contains_key(one) && l.persistent.contains_key(other) && other != one
                ==> all.persistent[other].ttl == l.persistent[other].ttl
            &&& !l.persistent.contains_key(one) && index < n ==> all.persistent[own].ttl
                == extended_ttl(l.persistent[own].ttl, 518_400, 1_036_800, l.limits.max_ttl)
            &&& !l.persistent.contains_key(one) && l.persistent.contains_key(own) && index >= n
                ==> all.persistent[own].ttl == l.persistent[own].ttl
            &&& l.persistent.contains_key(other) && other != own ==> single.persistent[other].ttl
                == all.persistent[other].ttl
            &&& index < l.milestones().len() ==> single == all
            &&& l.persistent.contains_key(own) && index >= l.milestones().len()
                ==> single.persistent[own].ttl == extended_ttl(
                l.persistent[own].ttl,
                518_400,
                1_036_800,
                l.limits.max_ttl,
            )
            &&& (!l.persistent.contains_key(one) && l.persistent.contains_key(other) && (forall|
                j: u32,
            |
                j < n ==> other != #[trigger] DataKey::MilestoneData(j).parts()))
                ==> all.persistent[other] == l.persistent[other]
        }),
{
    let own = DataKey::MilestoneData(index);
    lemma_other_key(DataKey::MilestonesVec, own);
    if !l.persistent.contains_key(DataKey::MilestonesVec.parts()) {
        law_milestones_with_entries_of_their_own(
            l,
            n,
            index,
            MilestoneData { target_amount: 0, status: MilestoneStatus::Locked },
        );
        assert(l.legacy_len() == n);
        if index < n {
            assert(legacy_keys(n).contains(own.parts()));
        }
        if legacy_keys(n).contains(own.parts()) {
            let j = choose|j: u32| j < n && own.parts() == #[trigger] DataKey::MilestoneData(
                j,
            ).parts();
            lemma_keys_are_distinct(own, DataKey::MilestoneData(j));
        }
    }
}

/// Storing a milestone writes the one entry, with all milestones in it, or the
/// entry of its own, and no other value.
pub proof fn law_milestone_write_entry_by_entry(
    l: LedgerView,
    index: u32,
    data: MilestoneData,
    i: int,
    other: Seq<KeyPart>,
)
    requires
        l.milestones_sound(),
    ensures
        ({
            let one = DataKey::MilestonesVec.parts();
            let own = DataKey::MilestoneData(index).parts();
            let after = l.with_milestone(index, data);
            let len = l.milestones().len();
            let target = if index <= len {
                one
            } else {
                own
            };
            &&& index <= len ==> (after.persistent[one].value matches Stored::Milestones(rows)
                && rows.len() == (if index < len {
                len
            } else {
                len + 1
            }) && rows[index as int] == data.row() && (0 <= i < len && i != index ==> rows[i]
                == l.milestones()[i].row()))
            &&& index > len ==> after.persistent[own].value == Stored::Milestone(data.row())
            &&& after.persistent.contains_key(target)
            &&& other != target ==> (after.persistent.contains_key(other)
                <==> l.persistent.contains_key(other))
            &&& other != target && l.persistent.contains_key(other)
                ==> after.persistent[other].value == l.persistent[other].value
                && after.persistent[other].ttl == l.milestones_touched().persistent[other].ttl
            &&& !l.persistent.contains_key(target) ==> after.persistent[target].ttl
                == extended_ttl(
                l.limits.fresh_persistent,
                518_400,
                1_036_800,
                l.limits.max_ttl,
            )
            &&& l.persistent.contains_key(target) ==> after.persistent[target].ttl
                == extended_ttl(
                l.persistent[target].ttl,
                518_400,
                1_036_800,
                l.limits.max_ttl,
            )
            &&& after.temporary == l.temporary
            &&& after.limits == l.limits
            &&& after.running == l.running
        }),
{
    let own = DataKey::MilestoneData(index);
    lemma_touched_milestones(l);
    lemma_other_key(DataKey::MilestonesVec, own);
    if !l.has(DataKey::MilestonesVec) {
        let n = l.legacy_len();
        assert(l.first_gap(n));
        if legacy_keys(n).contains(own.parts()) {
            let j = choose|j: u32| j < n && own.parts() == #[trigger] DataKey::MilestoneData(
                j,
            ).parts();
            lemma_keys_are_distinct(own, DataKey::MilestoneData(j));
        }
        if legacy_keys(n).contains(DataKey::MilestonesVec.parts()) {
            let j = choose|j: u32|
                j < n && DataKey::MilestonesVec.parts() == #[trigger] DataKey::MilestoneData(
                    j,
                ).parts();
            lemma_keys_are_distinct(DataKey::MilestonesVec, DataKey::MilestoneData(j));
        }
    }
}

// --- Unlocking ---

/// A milestone is unlocked exactly when it is locked and no target up to its own
/// is above the raised amount. It keeps its target, and every other milestone is
/// left as it is.
pub proof fn law_unlock_milestone_by_milestone(
    milestones: Seq<MilestoneData>,
    raised: i128,
    i: int,
)
    requires
        0 <= i < milestones.len(),
    ensures
        ({
            let opens = milestones[i].status == MilestoneStatus::Locked && forall|j: int|
                0 <= j <= i ==> (#[trigger] milestones[j]).target_amount <= raised;
            let after = after_unlock(milestones, raised);
            &&& unlocks(milestones, raised, i) <==> opens
            &&& after.len() == milestones.len()
            &&& opens ==> after[i] == (MilestoneData {
                target_amount: milestones[i].target_amount,
                status: MilestoneStatus::Unlocked,
            })
            &&& !opens ==> after[i] == milestones[i]
        }),
{
}

/// A milestone that has been released is never unlocked again, and one that is
/// unlocked already is not reported.
pub proof fn law_only_locked_milestones_are_reported(
    milestones: Seq<MilestoneData>,
    raised: i128,
    index: u32,
    target: i128,
)
    requires
        milestones.len() <= u32::MAX,
        newly_unlocked(milestones, raised).contains((index, target)),
    ensures
        index < milestones.len(),
        milestones[index as int].status == MilestoneStatus::Locked,
        milestones[index as int].target_amount == target,
        target <= raised,
        after_unlock(milestones, raised)[index as int].status == MilestoneStatus::Unlocked,
{
    crate::laws::law_unlocked_list_is_exact(milestones, raised, index, target);
}

/// Unlocking writes the one entry, with all milestones in it, if there is anything
/// to unlock, and no other value.
pub proof fn law_unlocking_entry_by_entry(
    l: LedgerView,
    raised: i128,
    i: int,
    other: Seq<KeyPart>,
)
    requires
        l.milestones_sound(),
    ensures
        ({
            let one = DataKey::MilestonesVec.parts();
            let after = l.with_unlocked(raised);
            let milestones = l.milestones();
            let any = exists|k: int|
                0 <= k < milestones.len() && #[trigger] unlocks(milestones, raised, k);
            &&& any ==> after.persistent.contains_key(one) && (
            after.persistent[one].value matches Stored::Milestones(rows) && rows.len()
                == milestones.len() && (0 <= i < rows.len() ==> rows[i] == after_unlock(
                milestones,
                raised,
            )[i].row()))
            &&& !any ==> after == l.milestones_touched()
            &&& other != one ==> (after.persistent.contains_key(other)
                <==> l.persistent.contains_key(other))
            &&& other != one && l.persistent.contains_key(other) ==> after.persistent[other]
                == l.milestones_touched().persistent[other]
            &&& any && l.persistent.contains_key(one) ==> after.persistent[one].ttl
                == extended_ttl(l.persistent[one].ttl, 518_400, 1_036_800, l.limits.max_ttl)
            &&& any && !l.persistent.contains_key(one) ==> after.persistent[one].ttl
                == extended_ttl(
                l.limits.fresh_persistent,
                518_400,
                1_036_800,
                l.limits.max_ttl,
            )
            &&& after.temporary == l.temporary
            &&& after.limits == l.limits
            &&& after.running == l.running
        }),
{
    let milestones = l.milestones();
    lemma_touched_milestones(l);
    if newly_unlocked(milestones, raised).len() == 0 {
        crate::laws::lemma_empty_list_means_none(milestones, raised, milestones.len());
    } else {
        crate::milestones::lemma_some_unlocked(milestones, raised, milestones.len());
    }
    if !l.has(DataKey::MilestonesVec) {
        let n = l.legacy_len();
        assert(l.first_gap(n));
        if legacy_keys(n).contains(DataKey::MilestonesVec.parts()) {
            let j = choose|j: u32|
                j < n && DataKey::MilestonesVec.parts() == #[trigger] DataKey::MilestoneData(
                    j,
                ).parts();
            lemma_keys_are_distinct(DataKey::MilestonesVec, DataKey::MilestoneData(j));
        }
    }
}

} // verus!
