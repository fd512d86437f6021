//! The ledger as a campaign sees it: what the host holds under each
//! [`DataKey`], and what each kind of access makes of it.

use crate::host::{
    extended, extended_ttl, in_contract, ledger_limits, persistent_entries, temporary_entries,
    written, Entry, KeyPart, LedgerLimits, Stored,
};
use crate::keys::DataKey;
use crate::milestones::{after_unlock, are_rows, milestones_of, newly_unlocked, rows_of};
use crate::types::{CampaignData, MilestoneData};
use soroban_sdk::Env;
use vstd::prelude::*;

verus! {

/// ~30 days: a persistent entry whose ttl has sunk to this is extended.
pub const PERSISTENT_BUMP_THRESHOLD: u32 = 518_400;

/// ~60 days: the ttl that a persistent entry is extended to.
pub const PERSISTENT_BUMP_AMOUNT: u32 = 1_036_800;

/// ~7 days: the ttl of temporary entries (contract status, locks).
pub const TEMPORARY_TTL: u32 = 120_960;

/// ~1 day: a temporary entry whose ttl has sunk to this is extended.
pub const TEMPORARY_BUMP_THRESHOLD: u32 = 17_280;

/// The state of the ledger, as far as the running contract can see it.
#[verifier::ext_equal]
pub struct LedgerView {
    pub persistent: Map<Seq<KeyPart>, Entry>,
    pub temporary: Map<Seq<KeyPart>, Entry>,
    pub limits: LedgerLimits,
    pub running: bool,
}

/// The ledger that `env` gives access to.
pub open spec fn ledger(env: Env) -> LedgerView {
    LedgerView {
        persistent: persistent_entries(env),
        temporary: temporary_entries(env),
        limits: ledger_limits(env),
        running: in_contract(env),
    }
}

/// Whether `value` has the shape that belongs under `key`.
pub open spec fn fits(key: DataKey, value: Stored) -> bool {
    match key {
        DataKey::CampaignData => value matches Stored::Campaign(row) && CampaignData::is_row(row),
        DataKey::MilestonesVec => value matches Stored::Milestones(rows) && are_rows(rows),
        DataKey::MilestoneData(_) => value matches Stored::Milestone(row)
            && MilestoneData::is_row(row),
        DataKey::DonorData(_) => value is Donor,
        DataKey::DonorAssetDonation(_, _) => value is Amount,
        DataKey::TotalRaised => value is Amount,
        DataKey::AssetRaised(_) => value is Amount,
        DataKey::DonationCount => value is Count,
        DataKey::ReleaseCount => value is Count,
        DataKey::FrozenAt => value is Count,
        DataKey::MinUnfreezeDelay => value is Count,
        DataKey::UniqueDonorCount => value is Word,
        DataKey::ContractStatus => value is Word,
        DataKey::ReentrancyLock => value is Flag,
        DataKey::Frozen => value is Flag,
        DataKey::BlockedAsset(_) => value is Flag,
        DataKey::CachedReport => value is Report,
    }
}

/// The entry with its ttl bumped.
pub open spec fn bumped(entry: Entry, limits: LedgerLimits) -> Entry {
    Entry {
        value: entry.value,
        ttl: extended_ttl(
            entry.ttl,
            PERSISTENT_BUMP_THRESHOLD,
            PERSISTENT_BUMP_AMOUNT,
            limits.max_ttl,
        ),
    }
}

impl LedgerView {
    /// Whether the host serves storage calls: a contract is running, and the
    /// ledger numbers that the host computes exist.
    pub open spec fn serving(self) -> bool {
        &&& self.running
        &&& self.limits.consistent()
    }

    /// Whether the host serves storage calls, and ttls can be bumped: the ledger
    /// number that a bump reaches to exists.
    pub open spec fn ready(self) -> bool {
        &&& self.serving()
        &&& self.limits.reaches(PERSISTENT_BUMP_AMOUNT)
    }

    /// Whether a temporary entry can be given [`TEMPORARY_TTL`].
    pub open spec fn temporary_ttl_fits(self) -> bool {
        TEMPORARY_TTL <= self.limits.max_ttl
    }

    /// Whether there is a persistent entry under `key`.
    pub open spec fn has(self, key: DataKey) -> bool {
        self.persistent.contains_key(key.parts())
    }

    /// The value of the persistent entry under `key`.
    pub open spec fn value(self, key: DataKey) -> Stored {
        self.persistent[key.parts()].value
    }

    /// The ttl of the persistent entry under `key`.
    pub open spec fn ttl(self, key: DataKey) -> u32 {
        self.persistent[key.parts()].ttl
    }

    /// Whether the persistent entry under `key`, if there is one, has the shape
    /// that belongs there.
    pub open spec fn sound(self, key: DataKey) -> bool {
        self.has(key) ==> fits(key, self.value(key))
    }

    /// The amount under `key`, or zero.
    pub open spec fn amount(self, key: DataKey) -> i128 {
        if self.has(key) {
            self.value(key)->Amount_0
        } else {
            0
        }
    }

    /// The count under `key`, or `default`.
    pub open spec fn count(self, key: DataKey, default: u64) -> u64 {
        if self.has(key) {
            self.value(key)->Count_0
        } else {
            default
        }
    }

    /// The word under `key`, or zero.
    pub open spec fn word(self, key: DataKey) -> u32 {
        if self.has(key) {
            self.value(key)->Word_0
        } else {
            0
        }
    }

    /// The flag under `key`, or `false`.
    pub open spec fn flag(self, key: DataKey) -> bool {
        self.has(key) && self.value(key)->Flag_0
    }

    /// The ledger after a write of `value` under the persistent `key`.
    pub open spec fn put(self, key: DataKey, value: Stored) -> LedgerView {
        LedgerView {
            persistent: written(
                self.persistent,
                key.parts(),
                value,
                self.limits.fresh_persistent,
            ),
            ..self
        }
    }

    /// The ledger after the persistent entry under `key`, if there is one, had
    /// its ttl bumped.
    pub open spec fn bump(self, key: DataKey) -> LedgerView {
        if self.has(key) {
            LedgerView {
                persistent: extended(
                    self.persistent,
                    key.parts(),
                    PERSISTENT_BUMP_THRESHOLD,
                    PERSISTENT_BUMP_AMOUNT,
                    self.limits.max_ttl,
                ),
                ..self
            }
        } else {
            self
        }
    }

    /// The ledger after a write of `value` under the persistent `key` and a bump
    /// of its ttl.
    pub open spec fn store(self, key: DataKey, value: Stored) -> LedgerView {
        self.put(key, value).bump(key)
    }

    /// The ledger after the freeze flag was set and the change was stamped with
    /// `now`.
    pub open spec fn freeze(self, frozen: bool, now: u64) -> LedgerView {
        self.store(DataKey::Frozen, Stored::Flag(frozen)).store(
            DataKey::FrozenAt,
            Stored::Count(now),
        )
    }

    /// The ledger after all persistent entries under `keys` had their ttl
    /// bumped.
    pub open spec fn bump_set(self, keys: Set<Seq<KeyPart>>) -> LedgerView {
        LedgerView {
            persistent: Map::new(
                |parts: Seq<KeyPart>| self.persistent.contains_key(parts),
                |parts: Seq<KeyPart>|
                    if keys.contains(parts) {
                        bumped(self.persistent[parts], self.limits)
                    } else {
                        self.persistent[parts]
                    },
            ),
            ..self
        }
    }

    /// Whether there is a live temporary entry under `key`.
    pub open spec fn temp_has(self, key: DataKey) -> bool {
        self.temporary.contains_key(key.parts())
    }

    /// The value of the temporary entry under `key`.
    pub open spec fn temp_value(self, key: DataKey) -> Stored {
        self.temporary[key.parts()].value
    }

    /// Whether the temporary entry under `key`, if there is one, has the shape
    /// that belongs there.
    pub open spec fn temp_sound(self, key: DataKey) -> bool {
        self.temp_has(key) ==> fits(key, self.temp_value(key))
    }

    /// The ledger after a write of `value` under the temporary `key`.
    pub open spec fn temp_put(self, key: DataKey, value: Stored) -> LedgerView {
        LedgerView {
            temporary: written(self.temporary, key.parts(), value, self.limits.fresh_temporary),
            ..self
        }
    }

    /// The ledger after the temporary entry under `key` had its ttl extended to
    /// [`TEMPORARY_TTL`] if it had sunk to `threshold`.
    pub open spec fn temp_extend(self, key: DataKey, threshold: u32) -> LedgerView {
        LedgerView {
            temporary: extended(
                self.temporary,
                key.parts(),
                threshold,
                TEMPORARY_TTL,
                self.limits.max_ttl,
            ),
            ..self
        }
    }

    /// The ledger without the temporary entry under `key`.
    pub open spec fn temp_remove(self, key: DataKey) -> LedgerView {
        LedgerView { temporary: self.temporary.remove(key.parts()), ..self }
    }

    /// The ledger after the re-entrancy lock was taken.
    pub open spec fn locked(self) -> LedgerView {
        self.temp_put(DataKey::ReentrancyLock, Stored::Flag(true)).temp_extend(
            DataKey::ReentrancyLock,
            TEMPORARY_TTL,
        )
    }

    /// Whether `n` is the first index that has no milestone entry of its own.
    pub open spec fn first_gap(self, n: nat) -> bool {
        &&& n <= u32::MAX
        &&& !self.has(DataKey::MilestoneData(n as u32))
        &&& forall|i: u32| i < n ==> #[trigger] self.has(DataKey::MilestoneData(i))
    }

    /// How many milestones have entries of their own, counted from index 0 up to
    /// the first gap.
    pub open spec fn legacy_len(self) -> nat {
        choose|n: nat| self.first_gap(n)
    }

    /// The milestone that has an entry of its own at `index`.
    pub open spec fn legacy_milestone(self, index: u32) -> MilestoneData {
        MilestoneData::of_row(self.value(DataKey::MilestoneData(index))->Milestone_0)
    }

    /// The milestones: those in the one entry for all, or else those that have
    /// entries of their own.
    pub open spec fn milestones(self) -> Seq<MilestoneData> {
        if self.has(DataKey::MilestonesVec) {
            milestones_of(self.value(DataKey::MilestonesVec)->Milestones_0)
        } else {
            Seq::new(self.legacy_len(), |i: int| self.legacy_milestone(i as u32))
        }
    }

    /// The milestone at `index`: the one among the milestones, or else one that
    /// has an entry of its own behind them.
    pub open spec fn milestone_at(self, index: u32) -> Option<MilestoneData> {
        if index < self.milestones().len() {
            Some(self.milestones()[index as int])
        } else if self.has(DataKey::MilestoneData(index)) {
            Some(self.legacy_milestone(index))
        } else {
            None
        }
    }

    /// The ledger after the milestones were read: each entry that was read had
    /// its ttl bumped.
    pub open spec fn milestones_touched(self) -> LedgerView {
        if self.has(DataKey::MilestonesVec) {
            self.bump(DataKey::MilestonesVec)
        } else {
            self.bump_set(legacy_keys(self.legacy_len()))
        }
    }

    /// The ledger after the milestone at `index` was read: the milestones were,
    /// and if it is not among them, so was the entry of its own.
    pub open spec fn milestone_touched(self, index: u32) -> LedgerView {
        if index < self.milestones().len() {
            self.milestones_touched()
        } else {
            self.milestones_touched().bump(DataKey::MilestoneData(index))
        }
    }

    /// The ledger after the milestone at `index` was stored: among the
    /// milestones or just behind the last, with all of them in the one entry, or
    /// further behind with an entry of its own.
    pub open spec fn with_milestone(self, index: u32, data: MilestoneData) -> LedgerView {
        let milestones = self.milestones();
        let touched = self.milestones_touched();
        if index < milestones.len() {
            touched.store(
                DataKey::MilestonesVec,
                Stored::Milestones(rows_of(milestones.update(index as int, data))),
            )
        } else if index == milestones.len() {
            touched.store(
                DataKey::MilestonesVec,
                Stored::Milestones(rows_of(milestones.push(data))),
            )
        } else {
            touched.store(DataKey::MilestoneData(index), Stored::Milestone(data.row()))
        }
    }

    /// The ledger after the milestones that `raised` unlocks were unlocked. It is
    /// written to only if there are any.
    pub open spec fn with_unlocked(self, raised: i128) -> LedgerView {
        let milestones = self.milestones();
        let touched = self.milestones_touched();
        if newly_unlocked(milestones, raised).len() > 0 {
            touched.store(
                DataKey::MilestonesVec,
                Stored::Milestones(rows_of(after_unlock(milestones, raised))),
            )
        } else {
            touched
        }
    }

    /// Whether the milestones can be read: their entries have the shape that
    /// belongs there, and, where they have entries of their own, those end
    /// before the index type does.
    pub open spec fn milestones_sound(self) -> bool {
        if self.has(DataKey::MilestonesVec) {
            self.sound(DataKey::MilestonesVec)
        } else {
            exists|n: nat| #[trigger]
                self.first_gap(n) && (forall|i: u32|
                    i < n ==> #[trigger] self.sound(DataKey::MilestoneData(i)))
        }
    }
}

/// The keys of the first `n` milestones that have entries of their own.
pub open spec fn legacy_keys(n: nat) -> Set<Seq<KeyPart>> {
    Set::new(
        |parts: Seq<KeyPart>|
            exists|i: u32| i < n && parts == #[trigger] DataKey::MilestoneData(i).parts(),
    )
}

/// Whether two ledgers have the same persistent entries, up to their ttls.
pub open spec fn same_values(a: LedgerView, b: LedgerView) -> bool {
    forall|key: DataKey|
        #![trigger a.has(key)]
        #![trigger b.has(key)]
        a.has(key) == b.has(key) && (a.has(key) ==> a.value(key) == b.value(key))
}

/// Two ledgers that hold the same values hold the same milestones.
pub(crate) proof fn lemma_same_milestones(a: LedgerView, b: LedgerView)
    requires
        a.milestones_sound(),
        same_values(a, b),
    ensures
        b.milestones_sound(),
        b.milestones() == a.milestones(),
        !a.has(DataKey::MilestonesVec) ==> b.legacy_len() == a.legacy_len(),
{
    assert(a.has(DataKey::MilestonesVec) == b.has(DataKey::MilestonesVec));
    if !a.has(DataKey::MilestonesVec) {
        let n = choose|n: nat| #[trigger]
            a.first_gap(n) && (forall|i: u32|
                i < n ==> #[trigger] a.sound(DataKey::MilestoneData(i)));
        assert(!b.has(DataKey::MilestoneData(n as u32)));
        assert forall|i: u32| i < n implies #[trigger] b.has(DataKey::MilestoneData(i)) by {
            assert(a.has(DataKey::MilestoneData(i)));
        }
        assert forall|i: u32| i < n implies #[trigger] b.sound(DataKey::MilestoneData(i)) by {
            assert(a.sound(DataKey::MilestoneData(i)));
            assert(a.has(DataKey::MilestoneData(i)));
        }
        assert(b.first_gap(n));
        lemma_legacy_len(a, n);
        lemma_legacy_len(b, n);
        assert forall|i: int| 0 <= i < n implies b.legacy_milestone(i as u32)
            == #[trigger] a.legacy_milestone(i as u32) by {
            assert(a.has(DataKey::MilestoneData(i as u32)));
        }
        assert(b.milestones() =~= a.milestones());
    }
}

/// Reading the milestones changes none of them.
pub(crate) proof fn lemma_touched_milestones(l: LedgerView)
    requires
        l.milestones_sound(),
    ensures
        same_values(l, l.milestones_touched()),
        l.milestones_touched().milestones_sound(),
        l.milestones_touched().milestones() == l.milestones(),
        !l.has(DataKey::MilestonesVec) ==> l.milestones_touched().legacy_len() == l.legacy_len(),
{
    lemma_same_milestones(l, l.milestones_touched());
}

/// Bumping one entry after some others is bumping one entry more.
pub(crate) proof fn lemma_bump_one_more(l: LedgerView, keys: Set<Seq<KeyPart>>, key: DataKey)
    ensures
        l.bump_set(keys).bump(key) == l.bump_set(keys.insert(key.parts())),
{
    assert(l.bump_set(keys).bump(key).persistent =~= l.bump_set(
        keys.insert(key.parts()),
    ).persistent);
}

/// The milestones with entries of their own end at the first gap.
pub(crate) proof fn lemma_legacy_len(l: LedgerView, n: nat)
    requires
        l.first_gap(n),
    ensures
        l.legacy_len() == n,
{
    let m = l.legacy_len();
    assert(l.first_gap(m));
    if m < n {
        assert(l.has(DataKey::MilestoneData(m as u32)));
    } else if n < m {
        assert(l.has(DataKey::MilestoneData(n as u32)));
    }
}

} // verus!
