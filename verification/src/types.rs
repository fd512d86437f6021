//! The records that a campaign keeps on the ledger, the keys it keeps them
//! under, and the errors it answers with.
//!
//! The host stores flat values only, so each record has a row: a tuple of
//! integers and host handles in which an enum is written as its code. `row`
//! says what the row of a record is; `to_row` and `from_row` go both ways.

use crate::host::AssetList;
use soroban_sdk::Address;
use vstd::prelude::*;

verus! {

/// Why a request was refused.
#[derive(Clone, Copy, Debug, PartialEq, Eq, Structural)]
pub enum Error {
    /// No campaign record has been stored yet.
    NotInitialized,
    /// There is no milestone at the requested index.
    MilestoneNotFound,
    /// An amount is negative, or is not positive where it has to be.
    InvalidAmount,
    /// A counter would leave the range of its type.
    Overflow,
    /// The re-entrancy lock is already held.
    ReentrantCall,
    /// The contract is frozen.
    ContractFrozen,
    /// The freeze has not stood for the configured delay yet.
    UnfreezeTooEarly,
    /// The requested un-freeze delay is above the maximum.
    UnfreezeDelayTooLong,
}

impl Error {
    /// The number under which callers of the contract see the error.
    pub open spec fn spec_code(self) -> u32 {
        match self {
            Error::NotInitialized => 1,
            Error::MilestoneNotFound => 2,
            Error::InvalidAmount => 3,
            Error::Overflow => 4,
            Error::ReentrantCall => 5,
            Error::ContractFrozen => 80,
            Error::UnfreezeTooEarly => 103,
            Error::UnfreezeDelayTooLong => 104,
        }
    }

    /// The number under which callers of the contract see the error.
    pub fn code(&self) -> (code: u32)
        ensures
            code == self.spec_code(),
    {
        match self {
            Error::NotInitialized => 1,
            Error::MilestoneNotFound => 2,
            Error::InvalidAmount => 3,
            Error::Overflow => 4,
            Error::ReentrantCall => 5,
            Error::ContractFrozen => 80,
            Error::UnfreezeTooEarly => 103,
            Error::UnfreezeDelayTooLong => 104,
        }
    }
}

/// Where a campaign stands.
#[derive(Clone, Copy, Debug, PartialEq, Eq, Structural)]
pub enum CampaignStatus {
    Active,
    Ended,
}

impl CampaignStatus {
    /// How the status is written in a row.
    pub open spec fn spec_code(self) -> u32 {
        match self {
            CampaignStatus::Active => 0,
            CampaignStatus::Ended => 1,
        }
    }

    /// Whether some status is written as `code`.
    pub open spec fn is_code(code: u32) -> bool {
        code <= 1
    }

    /// How the status is written in a row.
    pub fn code(&self) -> (code: u32)
        ensures
            code == self.spec_code(),
            CampaignStatus::is_code(code),
    {
        match self {
            CampaignStatus::Active => 0,
            CampaignStatus::Ended => 1,
        }
    }

    /// The status that is written as `code`.
    pub fn from_code(code: u32) -> (status: CampaignStatus)
        requires
            CampaignStatus::is_code(code),
        ensures
            status.spec_code() == code,
    {
        if code == 0 {
            CampaignStatus::Active
        } else {
            CampaignStatus::Ended
        }
    }
}

/// The life of a milestone: locked until enough has been raised, then unlocked,
/// and released once its funds have been paid out.
#[derive(Clone, Copy, Debug, PartialEq, Eq, Structural)]
pub enum MilestoneStatus {
    Locked,
    Unlocked,
    Released,
}

impl MilestoneStatus {
    /// How the status is written in a row.
    pub open spec fn spec_code(self) -> u32 {
        match self {
            MilestoneStatus::Locked => 0,
            MilestoneStatus::Unlocked => 1,
            MilestoneStatus::Released => 2,
        }
    }

    /// Whether some status is written as `code`.
    pub open spec fn is_code(code: u32) -> bool {
        code <= 2
    }

    /// The status that is written as `code`.
    pub open spec fn of_code(code: u32) -> MilestoneStatus {
        if code == 0 {
            MilestoneStatus::Locked
        } else if code == 1 {
            MilestoneStatus::Unlocked
        } else {
            MilestoneStatus::Released
        }
    }

    /// How the status is written in a row.
    pub fn code(&self) -> (code: u32)
        ensures
            code == self.spec_code(),
            MilestoneStatus::is_code(code),
            MilestoneStatus::of_code(code) == *self,
    {
        match self {
            MilestoneStatus::Locked => 0,
            MilestoneStatus::Unlocked => 1,
            MilestoneStatus::Released => 2,
        }
    }

    /// The status that is written as `code`.
    pub fn from_code(code: u32) -> (status: MilestoneStatus)
        requires
            MilestoneStatus::is_code(code),
        ensures
            status.spec_code() == code,
            status == MilestoneStatus::of_code(code),
    {
        if code == 0 {
            MilestoneStatus::Locked
        } else if code == 1 {
            MilestoneStatus::Unlocked
        } else {
            MilestoneStatus::Released
        }
    }
}

/// The campaign record.
#[derive(Debug)]
pub struct CampaignData {
    pub creator: Address,
    pub goal_amount: i128,
    pub raised_amount: i128,
    pub end_time: u64,
    pub status: CampaignStatus,
    pub accepted_assets: AssetList,
    pub milestone_count: u32,
    pub min_donation_amount: i128,
    pub created_at_ledger: u32,
    pub created_at_time: u64,
    pub concluded_at_ledger: Option<u32>,
}

impl Clone for CampaignData {
    fn clone(&self) -> (copy: CampaignData)
        ensures
            copy == *self,
    {
        CampaignData {
            creator: self.creator.clone(),
            goal_amount: self.goal_amount,
            raised_amount: self.raised_amount,
            end_time: self.end_time,
            status: self.status,
            accepted_assets: self.accepted_assets.clone(),
            milestone_count: self.milestone_count,
            min_donation_amount: self.min_donation_amount,
            created_at_ledger: self.created_at_ledger,
            created_at_time: self.created_at_time,
            concluded_at_ledger: self.concluded_at_ledger,
        }
    }
}

/// A [`CampaignData`] as the host stores it: its fields in order, the status as
/// its code.
pub type CampaignRow = (
    Address,
    i128,
    i128,
    u64,
    u32,
    AssetList,
    u32,
    i128,
    u32,
    u64,
    Option<u32>,
);

impl CampaignData {
    /// The row of the record.
    pub open spec fn row(self) -> CampaignRow {
        (
            self.creator,
            self.goal_amount,
            self.raised_amount,
            self.end_time,
            self.status.spec_code(),
            self.accepted_assets,
            self.milestone_count,
            self.min_donation_amount,
            self.created_at_ledger,
            self.created_at_time,
            self.concluded_at_ledger,
        )
    }

    /// Whether `row` is the row of some record.
    pub open spec fn is_row(row: CampaignRow) -> bool {
        CampaignStatus::is_code(row.4)
    }

    /// The row of the record.
    pub fn to_row(&self) -> (row: CampaignRow)
        ensures
            row == self.row(),
            CampaignData::is_row(row),
    {
        (
            self.creator.clone(),
            self.goal_amount,
            self.raised_amount,
            self.end_time,
            self.status.code(),
            self.accepted_assets.clone(),
            self.milestone_count,
            self.min_donation_amount,
            self.created_at_ledger,
            self.created_at_time,
            self.concluded_at_ledger,
        )
    }

    /// The record of `row`.
    pub fn from_row(row: CampaignRow) -> (data: CampaignData)
        requires
            CampaignData::is_row(row),
        ensures
            data.row() == row,
    {
        CampaignData {
            creator: row.0,
            goal_amount: row.1,
            raised_amount: row.2,
            end_time: row.3,
            status: CampaignStatus::from_code(row.4),
            accepted_assets: row.5,
            milestone_count: row.6,
            min_donation_amount: row.7,
            created_at_ledger: row.8,
            created_at_time: row.9,
            concluded_at_ledger: row.10,
        }
    }
}

/// One milestone: what has to be raised to unlock it, and how far it has got.
#[derive(Clone, Copy, Debug, PartialEq, Eq, Structural)]
pub struct MilestoneData {
    pub target_amount: i128,
    pub status: MilestoneStatus,
}

/// A [`MilestoneData`] as the host stores it: its target and its status code.
pub type MilestoneRow = (i128, u32);

impl MilestoneData {
    /// The row of the milestone.
    pub open spec fn row(self) -> MilestoneRow {
        (self.target_amount, self.status.spec_code())
    }

    /// Whether `row` is the row of some milestone.
    pub open spec fn is_row(row: MilestoneRow) -> bool {
        MilestoneStatus::is_code(row.1)
    }

    /// The milestone of `row`.
    pub open spec fn of_row(row: MilestoneRow) -> MilestoneData {
        MilestoneData { target_amount: row.0, status: MilestoneStatus::of_code(row.1) }
    }

    /// The row of the milestone.
    pub fn to_row(&self) -> (row: MilestoneRow)
        ensures
            row == self.row(),
            MilestoneData::is_row(row),
            MilestoneData::of_row(row) == *self,
    {
        (self.target_amount, self.status.code())
    }

    /// The milestone of `row`.
    pub fn from_row(row: MilestoneRow) -> (data: MilestoneData)
        requires
            MilestoneData::is_row(row),
        ensures
            data.row() == row,
            data == MilestoneData::of_row(row),
    {
        MilestoneData { target_amount: row.0, status: MilestoneStatus::from_code(row.1) }
    }
}

/// What a donation was made in: the native asset, or a token by its address.
#[derive(Debug)]
pub enum AssetInfo {
    Native,
    Token(Address),
}

impl Clone for AssetInfo {
    fn clone(&self) -> (copy: AssetInfo)
        ensures
            copy == *self,
    {
        match self {
            AssetInfo::Native => AssetInfo::Native,
            AssetInfo::Token(token) => AssetInfo::Token(token.clone()),
        }
    }
}

impl AssetInfo {
    /// How the asset is written in a row: the token's address, if it has one.
    pub open spec fn spec_token(self) -> Option<Address> {
        match self {
            AssetInfo::Native => None,
            AssetInfo::Token(token) => Some(token),
        }
    }

    /// How the asset is written in a row.
    pub fn token(&self) -> (token: Option<Address>)
        ensures
            token == self.spec_token(),
    {
        match self {
            AssetInfo::Native => None,
            AssetInfo::Token(token) => Some(token.clone()),
        }
    }

    /// The asset that is written as `token`.
    pub fn from_token(token: Option<Address>) -> (asset: AssetInfo)
        ensures
            asset.spec_token() == token,
    {
        match token {
            None => AssetInfo::Native,
            Some(token) => AssetInfo::Token(token),
        }
    }
}

/// What the campaign knows of one donor.
#[derive(Debug)]
pub struct DonorRecord {
    pub donor: Address,
    pub total_donated: i128,
    pub asset: AssetInfo,
    pub last_donation_time: u64,
    pub last_donation_ledger: u32,
    pub donation_count: u32,
    pub refund_claimed: bool,
}

impl Clone for DonorRecord {
    fn clone(&self) -> (copy: DonorRecord)
        ensures
            copy == *self,
    {
        DonorRecord {
            donor: self.donor.clone(),
            total_donated: self.total_donated,
            asset: self.asset.clone(),
            last_donation_time: self.last_donation_time,
            last_donation_ledger: self.last_donation_ledger,
            donation_count: self.donation_count,
            refund_claimed: self.refund_claimed,
        }
    }
}

/// A [`DonorRecord`] as the host stores it: its fields in order, the asset as
/// the token's address.
pub type DonorRow = (Address, i128, Option<Address>, u64, u32, u32, bool);

impl DonorRecord {
    /// The row of the record.
    pub open spec fn row(self) -> DonorRow {
        (
            self.donor,
            self.total_donated,
            self.asset.spec_token(),
            self.last_donation_time,
            self.last_donation_ledger,
            self.donation_count,
            self.refund_claimed,
        )
    }

    /// The record of a donor who has given nothing yet.
    pub open spec fn spec_zero(donor: Address) -> DonorRecord {
        DonorRecord {
            donor,
            total_donated: 0,
            asset: AssetInfo::Native,
            last_donation_time: 0,
            last_donation_ledger: 0,
            donation_count: 0,
            refund_claimed: false,
        }
    }

    /// The row of the record.
    pub fn to_row(&self) -> (row: DonorRow)
        ensures
            row == self.row(),
    {
        (
            self.donor.clone(),
            self.total_donated,
            self.asset.token(),
            self.last_donation_time,
            self.last_donation_ledger,
            self.donation_count,
            self.refund_claimed,
        )
    }

    /// The record of `row`.
    pub fn from_row(row: DonorRow) -> (record: DonorRecord)
        ensures
            record.row() == row,
    {
        DonorRecord {
            donor: row.0,
            total_donated: row.1,
            asset: AssetInfo::from_token(row.2),
            last_donation_time: row.3,
            last_donation_ledger: row.4,
            donation_count: row.5,
            refund_claimed: row.6,
        }
    }
}

/// The figures that a dashboard shows of the campaign.
#[derive(Clone, Copy, Debug, PartialEq, Eq, Structural)]
pub struct CampaignReport {
    pub goal_amount: i128,
    pub total_raised: i128,
    pub donation_count: u64,
    pub unique_donor_count: u32,
    pub release_count: u64,
}

/// A [`CampaignReport`] as the host stores it: its fields in order.
pub type ReportRow = (i128, i128, u64, u32, u64);

impl CampaignReport {
    /// The row of the report.
    pub open spec fn row(self) -> ReportRow {
        (
            self.goal_amount,
            self.total_raised,
            self.donation_count,
            self.unique_donor_count,
            self.release_count,
        )
    }

    /// The row of the report.
    pub fn to_row(&self) -> (row: ReportRow)
        ensures
            row == self.row(),
    {
        (
            self.goal_amount,
            self.total_raised,
            self.donation_count,
            self.unique_donor_count,
            self.release_count,
        )
    }

    /// The report of `row`.
    pub fn from_row(row: ReportRow) -> (report: CampaignReport)
        ensures
            report.row() == row,
    {
        CampaignReport {
            goal_amount: row.0,
            total_raised: row.1,
            donation_count: row.2,
            unique_donor_count: row.3,
            release_count: row.4,
        }
    }
}

} // verus!
