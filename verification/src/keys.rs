//! The keys under which a campaign keeps its entries.
//!
//! On the ledger a key is a vector: the name of the variant as a symbol, then
//! the arguments of the variant in order. [`lemma_keys_are_distinct`] shows that
//! no two keys are written alike.

use crate::host::{
    is_symbol, key_from_tag, key_parts, key_push_address, key_push_index, HostKey, KeyPart,
};
use soroban_sdk::{Address, Env};
use vstd::prelude::*;

verus! {

/// The name of an entry.
#[derive(Debug)]
pub enum DataKey {
    /// The campaign record.
    CampaignData,
    /// All milestones in one entry.
    MilestonesVec,
    /// One milestone by its index, in the layout with an entry for each.
    MilestoneData(u32),
    /// What is known of a donor.
    DonorData(Address),
    /// What a donor gave in an asset: the donor, then the asset.
    DonorAssetDonation(Address, Address),
    /// What was raised over all assets.
    TotalRaised,
    /// How many donations were accepted.
    DonationCount,
    /// How many donors there are.
    UniqueDonorCount,
    /// How many milestones were released.
    ReleaseCount,
    /// What was raised in one asset.
    AssetRaised(Address),
    /// The transient status flag (temporary).
    ContractStatus,
    /// The re-entrancy lock (temporary).
    ReentrancyLock,
    /// Whether the contract is frozen.
    Frozen,
    /// When the freeze flag last changed.
    FrozenAt,
    /// How long a freeze has to stand.
    MinUnfreezeDelay,
    /// Whether an asset is blocked.
    BlockedAsset(Address),
    /// The memoised report.
    CachedReport,
}

impl DataKey {
    /// The name of the variant.
    pub open spec fn tag(self) -> Seq<char> {
        match self {
            DataKey::CampaignData => "CampaignData"@,
            DataKey::MilestonesVec => "MilestonesVec"@,
            DataKey::MilestoneData(_) => "MilestoneData"@,
            DataKey::DonorData(_) => "DonorData"@,
            DataKey::DonorAssetDonation(_, _) => "DonorAssetDonation"@,
            DataKey::TotalRaised => "TotalRaised"@,
            DataKey::DonationCount => "DonationCount"@,
            DataKey::UniqueDonorCount => "UniqueDonorCount"@,
            DataKey::ReleaseCount => "ReleaseCount"@,
            DataKey::AssetRaised(_) => "AssetRaised"@,
            DataKey::ContractStatus => "ContractStatus"@,
            DataKey::ReentrancyLock => "ReentrancyLock"@,
            DataKey::Frozen => "Frozen"@,
            DataKey::FrozenAt => "FrozenAt"@,
            DataKey::MinUnfreezeDelay => "MinUnfreezeDelay"@,
            DataKey::BlockedAsset(_) => "BlockedAsset"@,
            DataKey::CachedReport => "CachedReport"@,
        }
    }

    /// The arguments of the variant.
    pub open spec fn arguments(self) -> Seq<KeyPart> {
        match self {
            DataKey::MilestoneData(index) => seq![KeyPart::Index(index)],
            DataKey::DonorData(donor) => seq![KeyPart::Party(donor)],
            DataKey::DonorAssetDonation(donor, asset) => seq![
                KeyPart::Party(donor),
                KeyPart::Party(asset),
            ],
            DataKey::AssetRaised(token) => seq![KeyPart::Party(token)],
            DataKey::BlockedAsset(asset) => seq![KeyPart::Party(asset)],
            _ => Seq::empty(),
        }
    }

    /// The key as it stands on the ledger.
    pub open spec fn parts(self) -> Seq<KeyPart> {
        seq![KeyPart::Tag(self.tag())] + self.arguments()
    }

    /// The name of the variant.
    fn name(&self) -> (name: &'static str)
        ensures
            name@ == self.tag(),
            is_symbol(name@),
    {
        proof {
            reveal_strlit("CampaignData");
            reveal_strlit("MilestonesVec");
            reveal_strlit("MilestoneData");
            reveal_strlit("DonorData");
            reveal_strlit("DonorAssetDonation");
            reveal_strlit("TotalRaised");
            reveal_strlit("DonationCount");
            reveal_strlit("UniqueDonorCount");
            reveal_strlit("ReleaseCount");
            reveal_strlit("AssetRaised");
            reveal_strlit("ContractStatus");
            reveal_strlit("ReentrancyLock");
            reveal_strlit("Frozen");
            reveal_strlit("FrozenAt");
            reveal_strlit("MinUnfreezeDelay");
            reveal_strlit("BlockedAsset");
            reveal_strlit("CachedReport");
        }
        match self {
            DataKey::CampaignData => "CampaignData",
            DataKey::MilestonesVec => "MilestonesVec",
            DataKey::MilestoneData(_) => "MilestoneData",
            DataKey::DonorData(_) => "DonorData",
            DataKey::DonorAssetDonation(_, _) => "DonorAssetDonation",
            DataKey::TotalRaised => "TotalRaised",
            DataKey::DonationCount => "DonationCount",
            DataKey::UniqueDonorCount => "UniqueDonorCount",
            DataKey::ReleaseCount => "ReleaseCount",
            DataKey::AssetRaised(_) => "AssetRaised",
            DataKey::ContractStatus => "ContractStatus",
            DataKey::ReentrancyLock => "ReentrancyLock",
            DataKey::Frozen => "Frozen",
            DataKey::FrozenAt => "FrozenAt",
            DataKey::MinUnfreezeDelay => "MinUnfreezeDelay",
            DataKey::BlockedAsset(_) => "BlockedAsset",
            DataKey::CachedReport => "CachedReport",
        }
    }

    /// The key as the host takes it.
    pub fn to_host(&self, env: &Env) -> (key: HostKey)
        ensures
            key_parts(key) == self.parts(),
    {
        let mut key = key_from_tag(env, self.name());
        match self {
            DataKey::MilestoneData(index) => {
                key_push_index(&mut key, *index);
            },
            DataKey::DonorData(donor) => {
                key_push_address(&mut key, donor);
            },
            DataKey::DonorAssetDonation(donor, asset) => {
                key_push_address(&mut key, donor);
                key_push_address(&mut key, asset);
            },
            DataKey::AssetRaised(token) => {
                key_push_address(&mut key, token);
            },
            DataKey::BlockedAsset(asset) => {
                key_push_address(&mut key, asset);
            },
            _ => {},
        }
        key
    }
}

/// Two keys that stand alike on the ledger are the same key.
pub proof fn lemma_keys_are_distinct(a: DataKey, b: DataKey)
    requires
        a.parts() == b.parts(),
    ensures
        a == b,
{
    reveal_strlit("CampaignData");
    reveal_strlit("MilestonesVec");
    reveal_strlit("MilestoneData");
    reveal_strlit("DonorData");
    reveal_strlit("DonorAssetDonation");
    reveal_strlit("TotalRaised");
    reveal_strlit("DonationCount");
    reveal_strlit("UniqueDonorCount");
    reveal_strlit("ReleaseCount");
    reveal_strlit("AssetRaised");
    reveal_strlit("ContractStatus");
    reveal_strlit("ReentrancyLock");
    reveal_strlit("Frozen");
    reveal_strlit("FrozenAt");
    reveal_strlit("MinUnfreezeDelay");
    reveal_strlit("BlockedAsset");
    reveal_strlit("CachedReport");
    assert(a.parts()[0] == KeyPart::Tag(a.tag()));
    assert(b.parts()[0] == KeyPart::Tag(b.tag()));
    // Tags differ in their length, or in one of these letters.
    assert(a.arguments() =~= a.parts().skip(1));
    assert(b.arguments() =~= b.parts().skip(1));
    assert(a.tag()[0] == b.tag()[0]);
    assert(a.tag()[1] == b.tag()[1]);
    assert(a.tag()[5] == b.tag()[5]);
    if a.tag().len() > 9 {
        assert(a.tag()[9] == b.tag()[9]);
    }
    if a.arguments().len() > 0 {
        assert(a.arguments()[0] == b.arguments()[0]);
    }
    if a.arguments().len() > 1 {
        assert(a.arguments()[1] == b.arguments()[1]);
    }
}

/// Different keys stand differently on the ledger.
pub(crate) proof fn lemma_other_key(a: DataKey, b: DataKey)
    requires
        a != b,
    ensures
        a.parts() != b.parts(),
{
    if a.parts() == b.parts() {
        lemma_keys_are_distinct(a, b);
    }
}

} // verus!
