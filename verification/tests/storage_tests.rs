//! The storage layer on a real host: what is written is read back, refusals,
//! layouts of the milestones, and how long entries live.

use campaign::keys::DataKey;
use campaign::milestones::MilestoneList;
use campaign::storage::{
    acquire_lock, block_asset, bump_all_persistent, get_cached_report_storage, get_campaign,
    get_campaign_or_panic, get_contract_status, get_donor, get_donor_asset_donation,
    get_donor_or_default, get_frozen_at, get_milestone, get_milestone_or_panic,
    get_milestones_vec, get_min_unfreeze_delay, increment_donor_asset_donation, is_asset_blocked,
    is_frozen, release_lock, set_cached_report_storage, set_campaign, set_contract_status,
    set_donor, set_frozen, set_frozen_at, set_milestone, set_milestones_vec,
    set_min_unfreeze_delay, storage_get_asset_raised, storage_get_donation_count,
    storage_get_release_count, storage_get_total_raised, storage_get_unique_donor_count,
    storage_increment_asset_raised, storage_increment_donation_count,
    storage_increment_release_count, storage_increment_total_raised,
    storage_increment_unique_donor_count, storage_set_asset_raised, storage_set_total_raised,
    temporary_ttl_fits, unblock_asset, unlock_milestones_batch, PERSISTENT_BUMP_AMOUNT,
    PERSISTENT_BUMP_THRESHOLD, TEMPORARY_BUMP_THRESHOLD, TEMPORARY_TTL,
};
use campaign::types::{
    AssetInfo, CampaignData, CampaignReport, CampaignStatus, DonorRecord, Error, MilestoneData,
    MilestoneStatus,
};
use campaign::DEFAULT_MIN_UNFREEZE_DELAY;
use soroban_sdk::testutils::storage::{Persistent as _, Temporary as _};
use soroban_sdk::testutils::{Address as _, ContractFunctionSet, EnvTestConfig, Ledger as _};
use soroban_sdk::{Address, Env, String, Symbol, Val, Vec};

/// A contract without entry points of its own: the tests run inside its frame.
struct Shell;

impl ContractFunctionSet for Shell {
    fn call(&self, _func: &str, _env: Env, _args: &[Val]) -> Option<Val> {
        None
    }
}

/// A host with one registered contract.
struct Fixture {
    env: Env,
    contract: Address,
}

impl Fixture {
    fn new() -> Fixture {
        let env = Env::new_with_config(EnvTestConfig {
            capture_snapshot_at_drop: false,
        });
        let contract = env.register(Shell, ());
        Fixture { env, contract }
    }

    /// Runs `f` as one invocation of the contract.
    fn invoke<T>(&self, f: impl FnOnce(&mut Env) -> T) -> T {
        self.env
            .as_contract(&self.contract, || f(&mut self.env.clone()))
    }

    fn address(&self) -> Address {
        Address::generate(&self.env)
    }

    /// The ttl of a persistent entry.
    fn ttl(&self, key: &DataKey) -> u32 {
        self.invoke(|e| e.storage().persistent().get_ttl(&key.to_host(e)))
    }

    /// The ttl of a temporary entry.
    fn temporary_ttl(&self, key: &DataKey) -> u32 {
        self.invoke(|e| e.storage().temporary().get_ttl(&key.to_host(e)))
    }

    fn has(&self, key: &DataKey) -> bool {
        self.invoke(|e| e.storage().persistent().has(&key.to_host(e)))
    }

    /// Puts a milestone into an entry of its own, past the storage layer.
    fn seed_milestone(&self, index: u32, target: i128, code: u32) {
        self.invoke(|e| {
            e.storage()
                .persistent()
                .set(&DataKey::MilestoneData(index).to_host(e), &(target, code))
        });
    }

    fn milestones(&self) -> std::vec::Vec<MilestoneData> {
        self.invoke(|e| {
            let list = get_milestones_vec(e);
            (0..list.len()).map(|i| list.get(i).unwrap()).collect()
        })
    }

    fn unlock(&self, raised: i128) -> std::vec::Vec<(u32, i128)> {
        self.invoke(|e| unlock_milestones_batch(e, raised).iter().collect())
    }
}

fn milestone(target_amount: i128, status: MilestoneStatus) -> MilestoneData {
    MilestoneData {
        target_amount,
        status,
    }
}

fn campaign(env: &Env) -> CampaignData {
    CampaignData {
        creator: Address::generate(env),
        goal_amount: 1000,
        raised_amount: 250,
        end_time: 99,
        status: CampaignStatus::Ended,
        accepted_assets: Vec::from_array(
            env,
            [
                (String::from_str(env, "XLM"), None),
                (String::from_str(env, "TST"), Some(Address::generate(env))),
            ],
        ),
        milestone_count: 3,
        min_donation_amount: 5,
        created_at_ledger: 7,
        created_at_time: 8,
        concluded_at_ledger: Some(9),
    }
}

// --- Keys ---

/// On the ledger a key is its name and its arguments.
#[test]
fn keys_are_written_as_name_and_arguments() {
    let t = Fixture::new();
    let (a, b) = (t.address(), t.address());
    t.invoke(|e| {
        let total: Vec<Val> = Vec::from_array(e, [Symbol::new(e, "TotalRaised").to_val()]);
        assert_eq!(DataKey::TotalRaised.to_host(e), total);

        let seventh: Vec<Val> =
            Vec::from_array(e, [Symbol::new(e, "MilestoneData").to_val(), 7u32.into()]);
        assert_eq!(DataKey::MilestoneData(7).to_host(e), seventh);

        let pair: Vec<Val> = Vec::from_array(
            e,
            [
                Symbol::new(e, "DonorAssetDonation").to_val(),
                a.to_val(),
                b.to_val(),
            ],
        );
        let key = DataKey::DonorAssetDonation(a.clone(), b.clone());
        assert_eq!(key.to_host(e), pair);
        let turned = DataKey::DonorAssetDonation(b.clone(), a.clone());
        assert_ne!(key.to_host(e), turned.to_host(e));
    });
}

/// No two keys are written alike.
#[test]
fn keys_are_distinct() {
    let t = Fixture::new();
    let (a, b) = (t.address(), t.address());
    let keys = [
        DataKey::CampaignData,
        DataKey::MilestonesVec,
        DataKey::MilestoneData(0),
        DataKey::MilestoneData(1),
        DataKey::DonorData(a.clone()),
        DataKey::DonorData(b.clone()),
        DataKey::DonorAssetDonation(a.clone(), b.clone()),
        DataKey::DonorAssetDonation(b.clone(), a.clone()),
        DataKey::TotalRaised,
        DataKey::DonationCount,
        DataKey::UniqueDonorCount,
        DataKey::ReleaseCount,
        DataKey::AssetRaised(a.clone()),
        DataKey::AssetRaised(b.clone()),
        DataKey::ContractStatus,
        DataKey::ReentrancyLock,
        DataKey::Frozen,
        DataKey::FrozenAt,
        DataKey::MinUnfreezeDelay,
        DataKey::BlockedAsset(a),
        DataKey::BlockedAsset(b),
        DataKey::CachedReport,
    ];
    t.invoke(|e| {
        for (i, x) in keys.iter().enumerate() {
            for (j, y) in keys.iter().enumerate() {
                assert_eq!(x.to_host(e) == y.to_host(e), i == j);
            }
        }
    });
}

/// A write touches its own entry only, and removes none.
#[test]
fn write_touches_one_entry() {
    let t = Fixture::new();
    let (a, b) = (t.address(), t.address());
    t.invoke(|e| {
        let s = e.storage().persistent();
        s.set(&DataKey::AssetRaised(b.clone()).to_host(e), &3i128);
        s.set(&DataKey::DonationCount.to_host(e), &4u64);
    });
    let ttl = t.ttl(&DataKey::DonationCount);
    assert_eq!(
        t.invoke(|e| storage_set_asset_raised(e, &a, 9)),
        Ok(())
    );
    assert_eq!(t.ttl(&DataKey::AssetRaised(b.clone())), ttl);
    assert_eq!(t.ttl(&DataKey::DonationCount), ttl);
    assert_eq!(t.invoke(|e| storage_get_asset_raised(e, &a)), 9);
    assert_eq!(t.invoke(|e| storage_get_asset_raised(e, &b)), 3);
    assert_eq!(t.invoke(storage_get_donation_count), 4);
    assert!(!t.has(&DataKey::TotalRaised));
}

// --- Campaign ---

#[test]
fn campaign_is_read_back() {
    let t = Fixture::new();
    let stored = campaign(&t.env);
    t.invoke(|e| set_campaign(e, &stored));
    let found = t.invoke(get_campaign).unwrap();
    assert_eq!(found.creator, stored.creator);
    assert_eq!(found.goal_amount, 1000);
    assert_eq!(found.raised_amount, 250);
    assert_eq!(found.end_time, 99);
    assert_eq!(found.status, CampaignStatus::Ended);
    assert_eq!(found.accepted_assets, stored.accepted_assets);
    assert_eq!(found.milestone_count, 3);
    assert_eq!(found.min_donation_amount, 5);
    assert_eq!(found.created_at_ledger, 7);
    assert_eq!(found.created_at_time, 8);
    assert_eq!(found.concluded_at_ledger, Some(9));

    let mut second = stored.clone();
    second.status = CampaignStatus::Active;
    second.concluded_at_ledger = None;
    t.invoke(|e| set_campaign(e, &second));
    let found = t.invoke(get_campaign_or_panic).unwrap();
    assert_eq!(found.status, CampaignStatus::Active);
    assert_eq!(found.concluded_at_ledger, None);
    assert_eq!(found.creator, stored.creator);
}

#[test]
fn missing_campaign_is_not_initialized() {
    let t = Fixture::new();
    assert!(t.invoke(get_campaign).is_none());
    assert_eq!(
        t.invoke(get_campaign_or_panic).map(|_| ()),
        Err(Error::NotInitialized)
    );
}

// --- Milestones ---

#[test]
fn no_milestones_at_first() {
    let t = Fixture::new();
    assert_eq!(t.milestones(), vec![]);
    assert_eq!(t.invoke(|e| get_milestone(e, 0)), None);
    assert_eq!(
        t.invoke(|e| get_milestone_or_panic(e, 0)),
        Err(Error::MilestoneNotFound)
    );
    assert_eq!(t.unlock(1_000), vec![]);
    assert!(!t.has(&DataKey::MilestonesVec));
}

#[test]
fn milestones_are_read_back() {
    let t = Fixture::new();
    t.invoke(|e| {
        let mut list = MilestoneList::new(e);
        list.push_back(&milestone(10, MilestoneStatus::Released));
        list.push_back(&milestone(20, MilestoneStatus::Unlocked));
        list.push_back(&milestone(30, MilestoneStatus::Locked));
        list.set(1, &milestone(25, MilestoneStatus::Locked));
        set_milestones_vec(e, &list);
    });
    assert_eq!(
        t.milestones(),
        vec![
            milestone(10, MilestoneStatus::Released),
            milestone(25, MilestoneStatus::Locked),
            milestone(30, MilestoneStatus::Locked),
        ]
    );
    assert_eq!(
        t.invoke(|e| get_milestone_or_panic(e, 1)),
        Ok(milestone(25, MilestoneStatus::Locked))
    );
    assert_eq!(t.invoke(|e| get_milestone(e, 3)), None);
}

#[test]
fn entries_of_their_own_are_gathered_up_to_the_gap() {
    let t = Fixture::new();
    t.seed_milestone(0, 10, 1);
    t.seed_milestone(1, 20, 0);
    t.seed_milestone(3, 40, 2);
    assert_eq!(
        t.milestones(),
        vec![
            milestone(10, MilestoneStatus::Unlocked),
            milestone(20, MilestoneStatus::Locked),
        ]
    );
    // The one behind the gap is found by its index.
    assert_eq!(t.invoke(|e| get_milestone(e, 2)), None);
    assert_eq!(
        t.invoke(|e| get_milestone(e, 3)),
        Some(milestone(40, MilestoneStatus::Released))
    );
    assert!(!t.has(&DataKey::MilestonesVec));
}

#[test]
fn first_write_moves_the_set_over() {
    let t = Fixture::new();
    t.seed_milestone(0, 10, 0);
    t.seed_milestone(1, 20, 0);
    t.invoke(|e| set_milestone(e, 1, &milestone(21, MilestoneStatus::Released)));
    assert!(t.has(&DataKey::MilestonesVec));
    // From now on the old entries are not looked at.
    t.seed_milestone(0, 99, 2);
    assert_eq!(
        t.milestones(),
        vec![
            milestone(10, MilestoneStatus::Locked),
            milestone(21, MilestoneStatus::Released),
        ]
    );
}

#[test]
fn milestone_just_behind_the_last_is_appended() {
    let t = Fixture::new();
    t.invoke(|e| set_milestone(e, 0, &milestone(5, MilestoneStatus::Locked)));
    t.invoke(|e| set_milestone(e, 1, &milestone(6, MilestoneStatus::Locked)));
    assert!(t.has(&DataKey::MilestonesVec));
    assert!(!t.has(&DataKey::MilestoneData(0)));
    assert_eq!(
        t.milestones(),
        vec![
            milestone(5, MilestoneStatus::Locked),
            milestone(6, MilestoneStatus::Locked),
        ]
    );
}

#[test]
fn milestone_further_behind_gets_an_entry_of_its_own() {
    let t = Fixture::new();
    t.invoke(|e| set_milestone(e, 4, &milestone(50, MilestoneStatus::Unlocked)));
    assert!(!t.has(&DataKey::MilestonesVec));
    assert!(t.has(&DataKey::MilestoneData(4)));
    assert_eq!(t.milestones(), vec![]);
    assert_eq!(
        t.invoke(|e| get_milestone(e, 4)),
        Some(milestone(50, MilestoneStatus::Unlocked))
    );
    t.invoke(|e| set_milestone(e, u32::MAX, &milestone(60, MilestoneStatus::Locked)));
    assert_eq!(
        t.invoke(|e| get_milestone(e, u32::MAX)),
        Some(milestone(60, MilestoneStatus::Locked))
    );
}

/// Storing one milestone leaves all others.
#[test]
fn milestone_write_is_local() {
    let t = Fixture::new();
    t.seed_milestone(0, 10, 0);
    t.seed_milestone(1, 20, 1);
    t.seed_milestone(5, 60, 2);
    for index in [0u32, 1, 2, 5, 7] {
        let before: std::vec::Vec<_> = (0..9)
            .map(|i| t.invoke(|e| get_milestone(e, i)))
            .collect();
        let data = milestone(1000 + index as i128, MilestoneStatus::Unlocked);
        t.invoke(|e| set_milestone(e, index, &data));
        for i in 0..9u32 {
            let now = t.invoke(|e| get_milestone(e, i));
            if i == index {
                assert_eq!(now, Some(data));
            } else {
                assert_eq!(now, before[i as usize]);
            }
        }
    }
}

fn three_locked(t: &Fixture) {
    for (i, target) in [100i128, 200, 300].iter().enumerate() {
        t.invoke(|e| set_milestone(e, i as u32, &milestone(*target, MilestoneStatus::Locked)));
    }
}

#[test]
fn unlock_reaches_the_raised_amount() {
    let t = Fixture::new();
    three_locked(&t);
    assert_eq!(t.unlock(99), vec![]);
    assert_eq!(t.unlock(200), vec![(0, 100), (1, 200)]);
    assert_eq!(
        t.milestones(),
        vec![
            milestone(100, MilestoneStatus::Unlocked),
            milestone(200, MilestoneStatus::Unlocked),
            milestone(300, MilestoneStatus::Locked),
        ]
    );
    // Again for the same amount, or for a lower one: nothing.
    assert_eq!(t.unlock(200), vec![]);
    assert_eq!(t.unlock(150), vec![]);
    assert_eq!(t.unlock(1_000), vec![(2, 300)]);
    assert_eq!(t.unlock(1_000), vec![]);
}

#[test]
fn unlock_passes_over_what_is_not_locked() {
    let t = Fixture::new();
    three_locked(&t);
    t.invoke(|e| set_milestone(e, 0, &milestone(100, MilestoneStatus::Released)));
    assert_eq!(t.unlock(250), vec![(1, 200)]);
    assert_eq!(
        t.invoke(|e| get_milestone(e, 0)),
        Some(milestone(100, MilestoneStatus::Released))
    );
}

#[test]
fn unlock_stops_at_the_first_target_above() {
    let t = Fixture::new();
    for (i, target) in [10i128, 500, 20].iter().enumerate() {
        t.invoke(|e| set_milestone(e, i as u32, &milestone(*target, MilestoneStatus::Locked)));
    }
    assert_eq!(t.unlock(100), vec![(0, 10)]);
    assert_eq!(
        t.invoke(|e| get_milestone(e, 2)),
        Some(milestone(20, MilestoneStatus::Locked))
    );
}

#[test]
fn unlock_moves_entries_of_their_own_only_when_it_writes() {
    let t = Fixture::new();
    t.seed_milestone(0, 10, 0);
    t.seed_milestone(1, 20, 0);
    assert_eq!(t.unlock(5), vec![]);
    assert!(!t.has(&DataKey::MilestonesVec));
    assert_eq!(t.unlock(10), vec![(0, 10)]);
    assert!(t.has(&DataKey::MilestonesVec));
    assert_eq!(
        t.milestones(),
        vec![
            milestone(10, MilestoneStatus::Unlocked),
            milestone(20, MilestoneStatus::Locked),
        ]
    );
}

/// Unlocking step by step comes to the same as unlocking once.
#[test]
fn unlock_goes_step_by_step() {
    let stepwise = Fixture::new();
    three_locked(&stepwise);
    let mut unlocked = vec![];
    for raised in [50, 100, 150, 299, 300] {
        unlocked.extend(stepwise.unlock(raised));
    }
    let once = Fixture::new();
    three_locked(&once);
    assert_eq!(unlocked, once.unlock(300));
    assert_eq!(unlocked, vec![(0, 100), (1, 200), (2, 300)]);
    assert_eq!(stepwise.milestones(), once.milestones());
}

/// More raised unlocks everything that less would have unlocked.
#[test]
fn unlock_grows_with_the_raised_amount() {
    let mut last = 0;
    for raised in [0i128, 99, 100, 101, 250, 300, i128::MAX] {
        let t = Fixture::new();
        three_locked(&t);
        let unlocked = t.unlock(raised);
        assert!(unlocked.len() >= last);
        assert!(unlocked.iter().all(|(_, target)| *target <= raised));
        last = unlocked.len();
    }
    assert_eq!(last, 3);
}

// --- Donors ---

#[test]
fn donor_is_read_back() {
    let t = Fixture::new();
    let (donor, other, token) = (t.address(), t.address(), t.address());
    assert!(t.invoke(|e| get_donor(e, &donor)).is_none());
    let stored = DonorRecord {
        donor: donor.clone(),
        total_donated: 12,
        asset: AssetInfo::Token(token.clone()),
        last_donation_time: 34,
        last_donation_ledger: 56,
        donation_count: 78,
        refund_claimed: true,
    };
    t.invoke(|e| set_donor(e, &donor, &stored));
    let found = t.invoke(|e| get_donor(e, &donor)).unwrap();
    assert_eq!(found.donor, donor);
    assert_eq!(found.total_donated, 12);
    assert!(matches!(found.asset, AssetInfo::Token(a) if a == token));
    assert_eq!(found.last_donation_time, 34);
    assert_eq!(found.last_donation_ledger, 56);
    assert_eq!(found.donation_count, 78);
    assert!(found.refund_claimed);
    assert!(t.invoke(|e| get_donor(e, &other)).is_none());
}

#[test]
fn unknown_donor_has_given_nothing() {
    let t = Fixture::new();
    let donor = t.address();
    let record = t.invoke(|e| get_donor_or_default(e, &donor));
    assert_eq!(record.donor, donor);
    assert_eq!(record.total_donated, 0);
    assert!(matches!(record.asset, AssetInfo::Native));
    assert_eq!(record.last_donation_time, 0);
    assert_eq!(record.last_donation_ledger, 0);
    assert_eq!(record.donation_count, 0);
    assert!(!record.refund_claimed);
    // The default is not stored.
    assert!(t.invoke(|e| get_donor(e, &donor)).is_none());

    let mut known = record.clone();
    known.total_donated = 5;
    t.invoke(|e| set_donor(e, &donor, &known));
    assert_eq!(
        t.invoke(|e| get_donor_or_default(e, &donor)).total_donated,
        5
    );
}

#[test]
fn donations_add_up_by_donor_and_asset() {
    let t = Fixture::new();
    let (donor, gold, silver) = (t.address(), t.address(), t.address());
    let give = |asset: &Address, amount: i128| {
        t.invoke(|e| increment_donor_asset_donation(e, &donor, asset, amount))
    };
    assert_eq!(give(&gold, 5), Ok(()));
    assert_eq!(give(&gold, 7), Ok(()));
    assert_eq!(give(&silver, 1), Ok(()));
    assert_eq!(give(&silver, -3), Ok(()));
    assert_eq!(
        t.invoke(|e| get_donor_asset_donation(e, &donor, &gold)),
        12
    );
    assert_eq!(
        t.invoke(|e| get_donor_asset_donation(e, &donor, &silver)),
        -2
    );
    assert_eq!(
        t.invoke(|e| get_donor_asset_donation(e, &gold, &donor)),
        0
    );
    assert_eq!(give(&gold, i128::MAX), Err(Error::Overflow));
    assert_eq!(give(&silver, i128::MIN), Err(Error::Overflow));
    assert_eq!(
        t.invoke(|e| get_donor_asset_donation(e, &donor, &gold)),
        12
    );
}

// --- Totals ---

#[test]
fn total_raised_adds_up() {
    let t = Fixture::new();
    assert_eq!(t.invoke(storage_get_total_raised), 0);
    assert_eq!(t.invoke(|e| storage_increment_total_raised(e, 40)), Ok(40));
    assert_eq!(t.invoke(|e| storage_increment_total_raised(e, 2)), Ok(42));
    assert_eq!(t.invoke(storage_get_total_raised), 42);
    assert_eq!(t.invoke(|e| storage_set_total_raised(e, 7)), Ok(()));
    assert_eq!(t.invoke(storage_get_total_raised), 7);
}

#[test]
fn total_raised_refuses_what_is_not_positive() {
    let t = Fixture::new();
    assert_eq!(t.invoke(|e| storage_set_total_raised(e, 9)), Ok(()));
    for delta in [0i128, -1, i128::MIN] {
        assert_eq!(
            t.invoke(|e| storage_increment_total_raised(e, delta)),
            Err(Error::InvalidAmount)
        );
    }
    assert_eq!(
        t.invoke(|e| storage_set_total_raised(e, -1)),
        Err(Error::InvalidAmount)
    );
    assert_eq!(t.invoke(|e| storage_set_total_raised(e, 0)), Ok(()));
    assert_eq!(t.invoke(storage_get_total_raised), 0);
}

#[test]
fn total_raised_does_not_overflow() {
    let t = Fixture::new();
    assert_eq!(t.invoke(|e| storage_set_total_raised(e, i128::MAX)), Ok(()));
    assert_eq!(
        t.invoke(|e| storage_increment_total_raised(e, 1)),
        Err(Error::Overflow)
    );
    assert_eq!(t.invoke(storage_get_total_raised), i128::MAX);
}

/// A total that was negative in the first place is not accepted while it stays
/// so.
#[test]
fn total_raised_does_not_stay_negative() {
    let t = Fixture::new();
    t.invoke(|e| {
        e.storage()
            .persistent()
            .set(&DataKey::TotalRaised.to_host(e), &-10i128)
    });
    assert_eq!(
        t.invoke(|e| storage_increment_total_raised(e, 9)),
        Err(Error::InvalidAmount)
    );
    assert_eq!(t.invoke(|e| storage_increment_total_raised(e, 10)), Ok(0));
}

#[test]
fn assets_are_apart() {
    let t = Fixture::new();
    let (gold, silver) = (t.address(), t.address());
    assert_eq!(
        t.invoke(|e| storage_increment_asset_raised(e, &gold, 3)),
        Ok(3)
    );
    assert_eq!(
        t.invoke(|e| storage_increment_asset_raised(e, &gold, 4)),
        Ok(7)
    );
    assert_eq!(t.invoke(|e| storage_get_asset_raised(e, &gold)), 7);
    assert_eq!(t.invoke(|e| storage_get_asset_raised(e, &silver)), 0);
    assert_eq!(t.invoke(storage_get_total_raised), 0);
    assert_eq!(
        t.invoke(|e| storage_set_asset_raised(e, &silver, i128::MAX)),
        Ok(())
    );
    assert_eq!(
        t.invoke(|e| storage_increment_asset_raised(e, &silver, 1)),
        Err(Error::Overflow)
    );
    assert_eq!(
        t.invoke(|e| storage_increment_asset_raised(e, &gold, 0)),
        Err(Error::InvalidAmount)
    );
    assert_eq!(
        t.invoke(|e| storage_set_asset_raised(e, &gold, -1)),
        Err(Error::InvalidAmount)
    );
    assert_eq!(t.invoke(|e| storage_get_asset_raised(e, &gold)), 7);
}

#[test]
fn counters_count() {
    let t = Fixture::new();
    assert_eq!(t.invoke(storage_get_donation_count), 0);
    assert_eq!(t.invoke(storage_get_unique_donor_count), 0);
    assert_eq!(t.invoke(storage_get_release_count), 0);
    assert_eq!(t.invoke(storage_increment_donation_count), Ok(1));
    assert_eq!(t.invoke(storage_increment_donation_count), Ok(2));
    assert_eq!(t.invoke(storage_increment_unique_donor_count), Ok(1));
    assert_eq!(t.invoke(storage_increment_release_count), Ok(1));
    assert_eq!(t.invoke(storage_get_donation_count), 2);
    assert_eq!(t.invoke(storage_get_unique_donor_count), 1);
    assert_eq!(t.invoke(storage_get_release_count), 1);
}

#[test]
fn counters_do_not_overflow() {
    let t = Fixture::new();
    t.invoke(|e| {
        let s = e.storage().persistent();
        s.set(&DataKey::DonationCount.to_host(e), &u64::MAX);
        s.set(&DataKey::UniqueDonorCount.to_host(e), &u32::MAX);
        s.set(&DataKey::ReleaseCount.to_host(e), &u64::MAX);
    });
    assert_eq!(
        t.invoke(storage_increment_donation_count),
        Err(Error::Overflow)
    );
    assert_eq!(
        t.invoke(storage_increment_unique_donor_count),
        Err(Error::Overflow)
    );
    assert_eq!(
        t.invoke(storage_increment_release_count),
        Err(Error::Overflow)
    );
    assert_eq!(t.invoke(storage_get_donation_count), u64::MAX);
    assert_eq!(t.invoke(storage_get_unique_donor_count), u32::MAX);
    assert_eq!(t.invoke(storage_get_release_count), u64::MAX);
}

// --- Status and lock ---

#[test]
fn contract_status_is_read_back_until_it_expires() {
    let t = Fixture::new();
    assert!(t.invoke(|e| temporary_ttl_fits(e)));
    assert_eq!(t.invoke(get_contract_status), None);
    t.invoke(|e| set_contract_status(e, 3));
    assert_eq!(t.invoke(get_contract_status), Some(3));
    t.invoke(|e| set_contract_status(e, 4));
    assert_eq!(t.invoke(get_contract_status), Some(4));
    assert_eq!(t.temporary_ttl(&DataKey::ContractStatus), TEMPORARY_TTL);

    // A read does not extend a ttl above the threshold, and does at it.
    let start = t.env.ledger().sequence();
    t.env
        .ledger()
        .set_sequence_number(start + TEMPORARY_TTL - TEMPORARY_BUMP_THRESHOLD - 1);
    assert_eq!(t.invoke(get_contract_status), Some(4));
    assert_eq!(
        t.temporary_ttl(&DataKey::ContractStatus),
        TEMPORARY_BUMP_THRESHOLD + 1
    );
    t.env
        .ledger()
        .set_sequence_number(start + TEMPORARY_TTL - TEMPORARY_BUMP_THRESHOLD);
    assert_eq!(t.invoke(get_contract_status), Some(4));
    assert_eq!(t.temporary_ttl(&DataKey::ContractStatus), TEMPORARY_TTL);

    let now = t.env.ledger().sequence();
    t.env.ledger().set_sequence_number(now + TEMPORARY_TTL + 1);
    assert_eq!(t.invoke(get_contract_status), None);
}

#[test]
fn temporary_ttl_has_to_fit() {
    let t = Fixture::new();
    t.env
        .ledger()
        .with_mut(|li| li.max_entry_ttl = TEMPORARY_TTL + 1);
    assert!(t.invoke(|e| temporary_ttl_fits(e)));
    t.invoke(|e| set_contract_status(e, 1));
    assert_eq!(t.temporary_ttl(&DataKey::ContractStatus), TEMPORARY_TTL);
    t.env
        .ledger()
        .with_mut(|li| li.max_entry_ttl = TEMPORARY_TTL);
    assert!(!t.invoke(|e| temporary_ttl_fits(e)));
}

#[test]
fn lock_excludes() {
    let t = Fixture::new();
    assert_eq!(t.invoke(acquire_lock), Ok(()));
    assert_eq!(t.invoke(acquire_lock), Err(Error::ReentrantCall));
    t.invoke(release_lock);
    assert_eq!(t.invoke(acquire_lock), Ok(()));
    t.invoke(release_lock);
    // A lock that is not held can be given back.
    t.invoke(release_lock);
    assert_eq!(t.invoke(acquire_lock), Ok(()));
}

/// The lock gets the explicit ttl, whatever the host gives a new entry.
#[test]
fn lock_gets_explicit_ttl() {
    for minimum in [1u32, 16, 20_000, TEMPORARY_TTL] {
        let t = Fixture::new();
        t.env.ledger().with_mut(|li| li.min_temp_entry_ttl = minimum);
        assert_eq!(t.invoke(acquire_lock), Ok(()));
        assert_eq!(t.temporary_ttl(&DataKey::ReentrancyLock), TEMPORARY_TTL);
    }
}

/// Setting the status flag again gives it a fresh ttl, and leaves the lock.
#[test]
fn contract_status_gets_a_fresh_ttl_when_it_is_overwritten() {
    let t = Fixture::new();
    assert_eq!(t.invoke(acquire_lock), Ok(()));
    t.invoke(|e| set_contract_status(e, 1));
    let start = t.env.ledger().sequence();
    t.env
        .ledger()
        .set_sequence_number(start + TEMPORARY_TTL - 50_000);
    assert_eq!(t.temporary_ttl(&DataKey::ContractStatus), 50_000);
    t.invoke(|e| set_contract_status(e, 2));
    assert_eq!(t.temporary_ttl(&DataKey::ContractStatus), TEMPORARY_TTL);
    assert_eq!(t.temporary_ttl(&DataKey::ReentrancyLock), 50_000);
    assert_eq!(t.invoke(get_contract_status), Some(2));
    assert_eq!(t.invoke(acquire_lock), Err(Error::ReentrantCall));
}

// --- Freeze flag ---

#[test]
fn freeze_flag_is_stamped() {
    let t = Fixture::new();
    assert!(!t.invoke(is_frozen));
    assert_eq!(t.invoke(|e| get_frozen_at(e)), 0);
    t.env.ledger().set_timestamp(1234);
    t.invoke(|e| set_frozen(e, true));
    assert!(t.invoke(is_frozen));
    assert_eq!(t.invoke(|e| get_frozen_at(e)), 1234);
    t.env.ledger().set_timestamp(5678);
    t.invoke(|e| set_frozen(e, false));
    assert!(!t.invoke(is_frozen));
    assert_eq!(t.invoke(|e| get_frozen_at(e)), 5678);
    t.invoke(|e| set_frozen_at(e, true, 99));
    assert!(t.invoke(is_frozen));
    assert_eq!(t.invoke(|e| get_frozen_at(e)), 99);
}

#[test]
fn unfreeze_delay_is_read_back() {
    let t = Fixture::new();
    assert_eq!(
        t.invoke(|e| get_min_unfreeze_delay(e)),
        DEFAULT_MIN_UNFREEZE_DELAY
    );
    t.invoke(|e| set_min_unfreeze_delay(e, 17));
    assert_eq!(t.invoke(|e| get_min_unfreeze_delay(e)), 17);
}

// --- Blocked assets ---

#[test]
fn block_is_for_one_asset() {
    let t = Fixture::new();
    let (gold, silver) = (t.address(), t.address());
    assert!(!t.invoke(|e| is_asset_blocked(e, &gold)));
    t.invoke(|e| block_asset(e, &gold));
    assert!(t.invoke(|e| is_asset_blocked(e, &gold)));
    assert!(!t.invoke(|e| is_asset_blocked(e, &silver)));
    t.invoke(|e| block_asset(e, &silver));
    t.invoke(|e| unblock_asset(e, &gold));
    assert!(!t.invoke(|e| is_asset_blocked(e, &gold)));
    assert!(t.invoke(|e| is_asset_blocked(e, &silver)));
}

// --- Report ---

#[test]
fn report_is_read_back() {
    let t = Fixture::new();
    assert_eq!(t.invoke(get_cached_report_storage), None);
    let report = CampaignReport {
        goal_amount: 1,
        total_raised: 2,
        donation_count: 3,
        unique_donor_count: 4,
        release_count: 5,
    };
    t.invoke(|e| set_cached_report_storage(e, &report));
    assert_eq!(t.invoke(get_cached_report_storage), Some(report));
}

// --- Ttls ---

/// A write bumps the ttl of its entry; later accesses extend it again once it has
/// sunk to the threshold.
#[test]
fn access_extends_the_ttl_at_the_threshold() {
    let t = Fixture::new();
    assert_eq!(t.invoke(|e| storage_set_total_raised(e, 1)), Ok(()));
    assert_eq!(t.ttl(&DataKey::TotalRaised), PERSISTENT_BUMP_AMOUNT);

    let start = t.env.ledger().sequence();
    let at_threshold = start + PERSISTENT_BUMP_AMOUNT - PERSISTENT_BUMP_THRESHOLD;
    t.env.ledger().set_sequence_number(at_threshold - 1);
    assert_eq!(t.invoke(storage_get_total_raised), 1);
    assert_eq!(t.ttl(&DataKey::TotalRaised), PERSISTENT_BUMP_THRESHOLD + 1);
    t.env.ledger().set_sequence_number(at_threshold);
    assert_eq!(t.invoke(storage_get_total_raised), 1);
    assert_eq!(t.ttl(&DataKey::TotalRaised), PERSISTENT_BUMP_AMOUNT);
    // A second access on the same ledger changes nothing.
    assert_eq!(t.invoke(storage_get_total_raised), 1);
    assert_eq!(t.ttl(&DataKey::TotalRaised), PERSISTENT_BUMP_AMOUNT);
}

#[test]
fn ttl_is_cut_to_what_the_host_allows() {
    let t = Fixture::new();
    t.env.ledger().with_mut(|li| li.max_entry_ttl = 10_000);
    t.invoke(|e| block_asset(e, &t.contract));
    assert_eq!(t.ttl(&DataKey::BlockedAsset(t.contract.clone())), 9_999);
}

/// Reads of the freeze window bump what they read.
#[test]
fn reads_of_the_freeze_window_bump() {
    let t = Fixture::new();
    t.invoke(|e| {
        let s = e.storage().persistent();
        s.set(&DataKey::FrozenAt.to_host(e), &5u64);
        s.set(&DataKey::MinUnfreezeDelay.to_host(e), &6u64);
    });
    let fresh = t.ttl(&DataKey::FrozenAt);
    assert!(fresh < PERSISTENT_BUMP_THRESHOLD);
    assert_eq!(t.invoke(get_frozen_at), 5);
    assert_eq!(t.ttl(&DataKey::FrozenAt), PERSISTENT_BUMP_AMOUNT);
    assert_eq!(t.ttl(&DataKey::MinUnfreezeDelay), fresh);
    assert_eq!(t.invoke(get_min_unfreeze_delay), 6);
    assert_eq!(t.ttl(&DataKey::MinUnfreezeDelay), PERSISTENT_BUMP_AMOUNT);
    // Where there is nothing to read, there is nothing to bump.
    let empty = Fixture::new();
    assert_eq!(empty.invoke(get_frozen_at), 0);
    assert!(!empty.has(&DataKey::FrozenAt));
}

/// Reads of milestones that have entries of their own bump those that are read.
#[test]
fn reads_of_milestones_bump() {
    let t = Fixture::new();
    t.seed_milestone(0, 10, 0);
    t.seed_milestone(1, 20, 0);
    t.seed_milestone(3, 40, 0);
    t.seed_milestone(4, 50, 0);
    let fresh = t.ttl(&DataKey::MilestoneData(0));
    assert_eq!(t.milestones().len(), 2);
    assert_eq!(t.ttl(&DataKey::MilestoneData(0)), PERSISTENT_BUMP_AMOUNT);
    assert_eq!(t.ttl(&DataKey::MilestoneData(1)), PERSISTENT_BUMP_AMOUNT);
    assert_eq!(t.ttl(&DataKey::MilestoneData(3)), fresh);
    assert!(t.invoke(|e| get_milestone(e, 3)).is_some());
    assert_eq!(t.ttl(&DataKey::MilestoneData(3)), PERSISTENT_BUMP_AMOUNT);
    assert_eq!(t.ttl(&DataKey::MilestoneData(4)), fresh);
    // Once all are in the one entry, the reads go there.
    t.invoke(|e| set_milestone(e, 2, &milestone(30, MilestoneStatus::Locked)));
    assert_eq!(t.milestones().len(), 3);
    assert_eq!(t.ttl(&DataKey::MilestonesVec), PERSISTENT_BUMP_AMOUNT);
    assert_eq!(t.ttl(&DataKey::MilestoneData(4)), fresh);
}

#[test]
fn bulk_refresh_bumps_core_entries() {
    let t = Fixture::new();
    let core = [
        DataKey::CampaignData,
        DataKey::TotalRaised,
        DataKey::DonationCount,
        DataKey::UniqueDonorCount,
        DataKey::ReleaseCount,
        DataKey::MilestonesVec,
        DataKey::CachedReport,
        DataKey::FrozenAt,
        DataKey::MinUnfreezeDelay,
        DataKey::MilestoneData(0),
        DataKey::MilestoneData(2),
    ];
    let others = [
        DataKey::MilestoneData(3),
        DataKey::Frozen,
        DataKey::AssetRaised(t.contract.clone()),
    ];
    t.invoke(|e| {
        for key in core.iter().chain(others.iter()) {
            e.storage().persistent().set(&key.to_host(e), &1u32);
        }
    });
    let fresh = t.ttl(&DataKey::Frozen);
    t.invoke(|e| bump_all_persistent(e, 3));
    for key in &core {
        assert_eq!(t.ttl(key), PERSISTENT_BUMP_AMOUNT);
    }
    for key in &others {
        assert_eq!(t.ttl(key), fresh);
    }
    // Nothing was written where there was nothing.
    assert!(!t.has(&DataKey::MilestoneData(1)));
    // On an empty ledger there is nothing to do.
    let empty = Fixture::new();
    empty.invoke(|e| bump_all_persistent(e, 3));
    assert!(!empty.has(&DataKey::CampaignData));
}

// --- Errors ---

#[test]
fn errors_have_distinct_codes() {
    let errors = [
        Error::NotInitialized,
        Error::MilestoneNotFound,
        Error::InvalidAmount,
        Error::Overflow,
        Error::ReentrantCall,
        Error::ContractFrozen,
        Error::UnfreezeTooEarly,
        Error::UnfreezeDelayTooLong,
    ];
    let codes: std::vec::Vec<u32> = errors.iter().map(|e| e.code()).collect();
    assert_eq!(codes, vec![1, 2, 3, 4, 5, 80, 103, 104]);
}
