//! The boundary to the host.
//!
//! Everything that this crate takes on trust stands here: the host types that
//! it carries, what it calls their contents, and one function for each call
//! that it makes into `soroban_sdk`. Nothing outside this module calls the SDK.
//!
//! A contract runs inside one host, and every handle it holds (an [`Env`], an
//! [`Address`], a value, a host vector) belongs to that host. A handle stands
//! here for what it denotes: two handles to the same address are the same
//! address, and two host vectors with the same items are the same vector.
//!
//! Handles share the state of their host, so what one call writes the next one
//! reads. The functions below that change that state take the [`Env`] by `&mut`,
//! and verified code never copies an [`Env`]: between two of its calls nothing
//! else changes the ledger.
//!
//! The host may end an invocation at any call, when its budget is spent or when
//! it touches an entry outside its declared footprint. Nothing is returned
//! then, and all that the invocation wrote is undone. The contracts below speak
//! of the calls that return.

use crate::types::{CampaignRow, DonorRow, MilestoneRow, ReportRow};
use soroban_sdk::{Address, Env, IntoVal, Symbol, TryFromVal, Val};
use vstd::prelude::*;

verus! {

/// The host environment of the running contract.
#[verifier::external_type_specification]
#[verifier::external_body]
pub struct ExEnv(soroban_sdk::Env);

/// The address of an account or of a contract.
#[verifier::external_type_specification]
#[verifier::external_body]
pub struct ExAddress(soroban_sdk::Address);

/// Any value that the host can store.
#[verifier::external_type_specification]
#[verifier::external_body]
pub struct ExVal(soroban_sdk::Val);

/// A string that the host holds.
#[verifier::external_type_specification]
#[verifier::external_body]
pub struct ExString(soroban_sdk::String);

/// A vector that the host holds. A host vector is a value: what changes under
/// `&mut` is which vector the handle denotes.
#[verifier::external_type_specification]
#[verifier::external_body]
#[verifier::reject_recursive_types(T)]
pub struct ExVec<T>(soroban_sdk::Vec<T>);

/// An accepted asset: its code and, for an issued asset, its issuer.
pub type StellarAsset = (soroban_sdk::String, Option<Address>);

/// The accepted assets of a campaign. The campaign hands the list through and
/// never looks inside.
pub type AssetList = soroban_sdk::Vec<StellarAsset>;

/// The rows of the milestones.
pub type MilestoneRows = soroban_sdk::Vec<MilestoneRow>;

/// Indexes and targets of milestones.
pub type UnlockedList = soroban_sdk::Vec<(u32, i128)>;

/// A storage key, as the host takes it: its tag, then its arguments.
pub type HostKey = soroban_sdk::Vec<Val>;

/// One item of a storage key.
pub enum KeyPart {
    Tag(Seq<char>),
    Index(u32),
    Party(Address),
}

/// What a host value holds: one of the shapes that a campaign stores, or
/// something else.
pub enum Stored {
    Flag(bool),
    Word(u32),
    Count(u64),
    Amount(i128),
    Campaign(CampaignRow),
    Milestones(Seq<MilestoneRow>),
    Milestone(MilestoneRow),
    Donor(DonorRow),
    Report(ReportRow),
    Other,
}

/// A ledger entry: its value, and for how many more ledgers after the current
/// one it lives.
pub struct Entry {
    pub value: Stored,
    pub ttl: u32,
}

/// The figures of the current ledger: its time, and what decides how long entries
/// live. No storage call changes them.
pub struct LedgerLimits {
    /// When the ledger was closed, in seconds.
    pub timestamp: u64,
    /// How many ledger numbers there are behind the current one.
    pub ahead: u32,
    /// The ttl of a persistent entry that is written for the first time.
    pub fresh_persistent: u32,
    /// The ttl of a temporary entry that is written for the first time.
    pub fresh_temporary: u32,
    /// The longest ttl that an entry can have.
    pub max_ttl: u32,
}

impl LedgerLimits {
    /// Whether the ledger that lies `ttl` ledgers ahead has a number.
    pub open spec fn reaches(self, ttl: u32) -> bool {
        ttl <= self.ahead
    }

    /// Whether the ledgers that the host itself looks ahead to have numbers.
    /// Where they do not, the host fails storage calls.
    pub open spec fn consistent(self) -> bool {
        &&& self.reaches(self.fresh_persistent)
        &&& self.reaches(self.fresh_temporary)
        &&& self.reaches(self.max_ttl)
    }
}

/// The persistent entries of the running contract under keys made of parts. An
/// entry that has been archived counts as one with the ttl of a fresh entry: that
/// is how the host restores it when it is next touched.
pub uninterp spec fn persistent_entries(env: Env) -> Map<Seq<KeyPart>, Entry>;

/// The temporary entries of the running contract under keys made of parts that
/// have not expired.
pub uninterp spec fn temporary_entries(env: Env) -> Map<Seq<KeyPart>, Entry>;

/// The figures of the current ledger.
pub uninterp spec fn ledger_limits(env: Env) -> LedgerLimits;

/// Whether a contract is running. The host offers storage to a contract only.
pub uninterp spec fn in_contract(env: Env) -> bool;

/// The items of a storage key.
pub uninterp spec fn key_parts(key: HostKey) -> Seq<KeyPart>;

/// What a host value holds.
pub uninterp spec fn host_value(value: Val) -> Stored;

/// The items of a vector of milestone rows.
pub uninterp spec fn milestone_rows(rows: MilestoneRows) -> Seq<MilestoneRow>;

/// The items of a list of unlocked milestones.
pub uninterp spec fn unlocked_items(list: UnlockedList) -> Seq<(u32, i128)>;

/// Whether the host accepts `c` in a symbol.
pub open spec fn is_symbol_char(c: char) -> bool {
    ||| c == '_'
    ||| '0' <= c <= '9'
    ||| 'A' <= c <= 'Z'
    ||| 'a' <= c <= 'z'
}

/// Whether the host accepts `s` as a symbol.
pub open spec fn is_symbol(s: Seq<char>) -> bool {
    &&& s.len() <= 32
    &&& forall|i: int| 0 <= i < s.len() ==> is_symbol_char(#[trigger] s[i])
}

/// The entries after a write of `value` under `key`: an entry that is there
/// keeps its ttl, a new one gets `fresh`.
pub open spec fn written(
    entries: Map<Seq<KeyPart>, Entry>,
    key: Seq<KeyPart>,
    value: Stored,
    fresh: u32,
) -> Map<Seq<KeyPart>, Entry> {
    let ttl = if entries.contains_key(key) {
        entries[key].ttl
    } else {
        fresh
    };
    entries.insert(key, Entry { value, ttl })
}

/// A ttl after a request to extend it: one that has sunk to `threshold` or
/// below is raised to `extend_to`, or to `max_ttl` if that is less. No ttl is
/// ever lowered.
pub open spec fn extended_ttl(ttl: u32, threshold: u32, extend_to: u32, max_ttl: u32) -> u32 {
    let target = if extend_to <= max_ttl {
        extend_to
    } else {
        max_ttl
    };
    if ttl <= threshold && ttl < target {
        target
    } else {
        ttl
    }
}

/// The entries after a request to extend the ttl of the one under `key`.
pub open spec fn extended(
    entries: Map<Seq<KeyPart>, Entry>,
    key: Seq<KeyPart>,
    threshold: u32,
    extend_to: u32,
    max_ttl: u32,
) -> Map<Seq<KeyPart>, Entry> {
    let entry = entries[key];
    entries.insert(
        key,
        Entry {
            value: entry.value,
            ttl: extended_ttl(entry.ttl, threshold, extend_to, max_ttl),
        },
    )
}

/// `Address::clone`: another handle to the same address.
pub assume_specification[ <Address as Clone>::clone ](address: &Address) -> (copy: Address)
    ensures
        copy == *address,
;

/// `soroban_sdk::Vec::clone`: another handle to the same host vector.
pub assume_specification<T>[ <soroban_sdk::Vec<T> as Clone>::clone ](
    list: &soroban_sdk::Vec<T>,
) -> (copy: soroban_sdk::Vec<T>)
    ensures
        copy == *list,
;

/// `Symbol::new` and `Vec::from_array`: the key whose one item is the symbol
/// `tag`. `Symbol::new` panics on anything but a symbol.
#[verifier::external_body]
pub(crate) fn key_from_tag(env: &Env, tag: &str) -> (key: HostKey)
    requires
        is_symbol(tag@),
    ensures
        key_parts(key) == seq![KeyPart::Tag(tag@)],
{
    soroban_sdk::Vec::from_array(env, [Symbol::new(env, tag).to_val()])
}

/// `Vec::push_back` of a `u32`: the key with one more item.
#[verifier::external_body]
pub(crate) fn key_push_index(key: &mut HostKey, index: u32)
    requires
        key_parts(*old(key)).len() < u32::MAX,
    ensures
        key_parts(*final(key)) == key_parts(*old(key)).push(KeyPart::Index(index)),
{
    key.push_back(index.into())
}

/// `Vec::push_back` of an address: the key with one more item.
#[verifier::external_body]
pub(crate) fn key_push_address(key: &mut HostKey, address: &Address)
    requires
        key_parts(*old(key)).len() < u32::MAX,
    ensures
        key_parts(*final(key)) == key_parts(*old(key)).push(KeyPart::Party(*address)),
{
    key.push_back(address.to_val())
}

/// `Persistent::has`: whether there is an entry under `key`.
#[verifier::external_body]
pub(crate) fn persistent_has(env: &Env, key: &HostKey) -> (found: bool)
    requires
        in_contract(*env),
        ledger_limits(*env).consistent(),
    ensures
        found == persistent_entries(*env).contains_key(key_parts(*key)),
{
    env.storage().persistent().has(key)
}

/// `Persistent::get`: the value under `key`, if there is an entry.
#[verifier::external_body]
pub(crate) fn persistent_get(env: &Env, key: &HostKey) -> (value: Option<Val>)
    requires
        in_contract(*env),
        ledger_limits(*env).consistent(),
    ensures
        value is Some <==> persistent_entries(*env).contains_key(key_parts(*key)),
        value matches Some(v) ==> host_value(v) == persistent_entries(*env)[key_parts(*key)].value,
{
    env.storage().persistent().get(key)
}

/// `Persistent::set`: writes `value` under `key`, and nothing else.
#[verifier::external_body]
pub(crate) fn persistent_set(env: &mut Env, key: &HostKey, value: &Val)
    requires
        in_contract(*old(env)),
        ledger_limits(*old(env)).consistent(),
    ensures
        persistent_entries(*final(env)) == written(
            persistent_entries(*old(env)),
            key_parts(*key),
            host_value(*value),
            ledger_limits(*old(env)).fresh_persistent,
        ),
        temporary_entries(*final(env)) == temporary_entries(*old(env)),
        ledger_limits(*final(env)) == ledger_limits(*old(env)),
        in_contract(*final(env)) == in_contract(*old(env)),
{
    env.storage().persistent().set(key, value)
}

/// `Persistent::extend_ttl`: extends the ttl of the entry under `key`, and does
/// nothing else. It panics where there is no entry, where the threshold lies
/// above the new ttl, and where the new ttl ends beyond the last ledger.
#[verifier::external_body]
pub(crate) fn persistent_extend_ttl(env: &mut Env, key: &HostKey, threshold: u32, extend_to: u32)
    requires
        in_contract(*old(env)),
        ledger_limits(*old(env)).consistent(),
        ledger_limits(*old(env)).reaches(extend_to),
        persistent_entries(*old(env)).contains_key(key_parts(*key)),
        threshold <= extend_to,
    ensures
        persistent_entries(*final(env)) == extended(
            persistent_entries(*old(env)),
            key_parts(*key),
            threshold,
            extend_to,
            ledger_limits(*old(env)).max_ttl,
        ),
        temporary_entries(*final(env)) == temporary_entries(*old(env)),
        ledger_limits(*final(env)) == ledger_limits(*old(env)),
        in_contract(*final(env)) == in_contract(*old(env)),
{
    env.storage().persistent().extend_ttl(key, threshold, extend_to)
}

/// `Temporary::has`: whether there is a live entry under `key`.
#[verifier::external_body]
pub(crate) fn temporary_has(env: &Env, key: &HostKey) -> (found: bool)
    requires
        in_contract(*env),
        ledger_limits(*env).consistent(),
    ensures
        found == temporary_entries(*env).contains_key(key_parts(*key)),
{
    env.storage().temporary().has(key)
}

/// `Temporary::get`: the value under `key`, if there is a live entry.
#[verifier::external_body]
pub(crate) fn temporary_get(env: &Env, key: &HostKey) -> (value: Option<Val>)
    requires
        in_contract(*env),
        ledger_limits(*env).consistent(),
    ensures
        value is Some <==> temporary_entries(*env).contains_key(key_parts(*key)),
        value matches Some(v) ==> host_value(v) == temporary_entries(*env)[key_parts(*key)].value,
{
    env.storage().temporary().get(key)
}

/// `Temporary::set`: writes `value` under `key`, and nothing else.
#[verifier::external_body]
pub(crate) fn temporary_set(env: &mut Env, key: &HostKey, value: &Val)
    requires
        in_contract(*old(env)),
        ledger_limits(*old(env)).consistent(),
    ensures
        temporary_entries(*final(env)) == written(
            temporary_entries(*old(env)),
            key_parts(*key),
            host_value(*value),
            ledger_limits(*old(env)).fresh_temporary,
        ),
        persistent_entries(*final(env)) == persistent_entries(*old(env)),
        ledger_limits(*final(env)) == ledger_limits(*old(env)),
        in_contract(*final(env)) == in_contract(*old(env)),
{
    env.storage().temporary().set(key, value)
}

/// `Temporary::extend_ttl`: extends the ttl of the entry under `key`, and does
/// nothing else. It panics where `Persistent::extend_ttl` does, and also where
/// the new ttl is longer than an entry can have.
#[verifier::external_body]
pub(crate) fn temporary_extend_ttl(env: &mut Env, key: &HostKey, threshold: u32, extend_to: u32)
    requires
        in_contract(*old(env)),
        ledger_limits(*old(env)).consistent(),
        temporary_entries(*old(env)).contains_key(key_parts(*key)),
        threshold <= extend_to <= ledger_limits(*old(env)).max_ttl,
    ensures
        temporary_entries(*final(env)) == extended(
            temporary_entries(*old(env)),
            key_parts(*key),
            threshold,
            extend_to,
            ledger_limits(*old(env)).max_ttl,
        ),
        persistent_entries(*final(env)) == persistent_entries(*old(env)),
        ledger_limits(*final(env)) == ledger_limits(*old(env)),
        in_contract(*final(env)) == in_contract(*old(env)),
{
    env.storage().temporary().extend_ttl(key, threshold, extend_to)
}

/// `Temporary::remove`: removes the entry under `key`, if there is one, and does
/// nothing else.
#[verifier::external_body]
pub(crate) fn temporary_remove(env: &mut Env, key: &HostKey)
    requires
        in_contract(*old(env)),
        ledger_limits(*old(env)).consistent(),
    ensures
        temporary_entries(*final(env)) == temporary_entries(*old(env)).remove(key_parts(*key)),
        persistent_entries(*final(env)) == persistent_entries(*old(env)),
        ledger_limits(*final(env)) == ledger_limits(*old(env)),
        in_contract(*final(env)) == in_contract(*old(env)),
{
    env.storage().temporary().remove(key)
}

/// `Storage::max_ttl`: the longest ttl that an entry can have.
#[verifier::external_body]
pub(crate) fn storage_max_ttl(env: &Env) -> (ttl: u32)
    requires
        ledger_limits(*env).consistent(),
    ensures
        ttl == ledger_limits(*env).max_ttl,
{
    env.storage().max_ttl()
}

/// `Ledger::timestamp`: when the current ledger was closed, in seconds.
#[verifier::external_body]
pub(crate) fn ledger_timestamp(env: &Env) -> (now: u64)
    ensures
        now == ledger_limits(*env).timestamp,
{
    env.ledger().timestamp()
}

/// `IntoVal` for `bool`: the host value of a flag.
#[verifier::external_body]
pub(crate) fn flag_to_val(env: &Env, flag: bool) -> (value: Val)
    ensures
        host_value(value) == Stored::Flag(flag),
{
    flag.into_val(env)
}

/// `TryFromVal` for `bool`: gives back the flag. It fails on any other value.
#[verifier::external_body]
pub(crate) fn flag_from_val(env: &Env, value: &Val) -> (flag: bool)
    requires
        host_value(*value) is Flag,
    ensures
        host_value(*value) == Stored::Flag(flag),
{
    bool::try_from_val(env, value).unwrap()
}

/// `IntoVal` for `u32`: the host value of a word.
#[verifier::external_body]
pub(crate) fn word_to_val(env: &Env, word: u32) -> (value: Val)
    ensures
        host_value(value) == Stored::Word(word),
{
    word.into_val(env)
}

/// `TryFromVal` for `u32`: gives back the word. It fails on any other value.
#[verifier::external_body]
pub(crate) fn word_from_val(env: &Env, value: &Val) -> (word: u32)
    requires
        host_value(*value) is Word,
    ensures
        host_value(*value) == Stored::Word(word),
{
    u32::try_from_val(env, value).unwrap()
}

/// `IntoVal` for `u64`: the host value of a count.
#[verifier::external_body]
pub(crate) fn count_to_val(env: &Env, count: u64) -> (value: Val)
    ensures
        host_value(value) == Stored::Count(count),
{
    count.into_val(env)
}

/// `TryFromVal` for `u64`: gives back the count. It fails on any other value.
#[verifier::external_body]
pub(crate) fn count_from_val(env: &Env, value: &Val) -> (count: u64)
    requires
        host_value(*value) is Count,
    ensures
        host_value(*value) == Stored::Count(count),
{
    u64::try_from_val(env, value).unwrap()
}

/// `IntoVal` for `i128`: the host value of an amount.
#[verifier::external_body]
pub(crate) fn amount_to_val(env: &Env, amount: i128) -> (value: Val)
    ensures
        host_value(value) == Stored::Amount(amount),
{
    amount.into_val(env)
}

/// `TryFromVal` for `i128`: gives back the amount. It fails on any other value.
#[verifier::external_body]
pub(crate) fn amount_from_val(env: &Env, value: &Val) -> (amount: i128)
    requires
        host_value(*value) is Amount,
    ensures
        host_value(*value) == Stored::Amount(amount),
{
    i128::try_from_val(env, value).unwrap()
}

/// `IntoVal` for a tuple: the host value of a campaign row.
#[verifier::external_body]
pub(crate) fn campaign_to_val(env: &Env, row: CampaignRow) -> (value: Val)
    ensures
        host_value(value) == Stored::Campaign(row),
{
    row.into_val(env)
}

/// `TryFromVal` for a tuple: gives back the campaign row. It fails on any other
/// value.
#[verifier::external_body]
pub(crate) fn campaign_from_val(env: &Env, value: &Val) -> (row: CampaignRow)
    requires
        host_value(*value) is Campaign,
    ensures
        host_value(*value) == Stored::Campaign(row),
{
    CampaignRow::try_from_val(env, value).unwrap()
}

/// `IntoVal` for a tuple: the host value of a donor row.
#[verifier::external_body]
pub(crate) fn donor_to_val(env: &Env, row: DonorRow) -> (value: Val)
    ensures
        host_value(value) == Stored::Donor(row),
{
    row.into_val(env)
}

/// `TryFromVal` for a tuple: gives back the donor row. It fails on any other
/// value.
#[verifier::external_body]
pub(crate) fn donor_from_val(env: &Env, value: &Val) -> (row: DonorRow)
    requires
        host_value(*value) is Donor,
    ensures
        host_value(*value) == Stored::Donor(row),
{
    DonorRow::try_from_val(env, value).unwrap()
}

/// `IntoVal` for a tuple: the host value of a report row.
#[verifier::external_body]
pub(crate) fn report_to_val(env: &Env, row: ReportRow) -> (value: Val)
    ensures
        host_value(value) == Stored::Report(row),
{
    row.into_val(env)
}

/// `TryFromVal` for a tuple: gives back the report row. It fails on any other
/// value.
#[verifier::external_body]
pub(crate) fn report_from_val(env: &Env, value: &Val) -> (row: ReportRow)
    requires
        host_value(*value) is Report,
    ensures
        host_value(*value) == Stored::Report(row),
{
    ReportRow::try_from_val(env, value).unwrap()
}

/// `IntoVal` for a pair: the host value of a milestone row.
#[verifier::external_body]
pub(crate) fn milestone_to_val(env: &Env, row: MilestoneRow) -> (value: Val)
    ensures
        host_value(value) == Stored::Milestone(row),
{
    row.into_val(env)
}

/// `TryFromVal` for a pair: gives back the milestone row. It fails on any other
/// value.
#[verifier::external_body]
pub(crate) fn milestone_from_val(env: &Env, value: &Val) -> (row: MilestoneRow)
    requires
        host_value(*value) is Milestone,
    ensures
        host_value(*value) == Stored::Milestone(row),
{
    MilestoneRow::try_from_val(env, value).unwrap()
}

/// `soroban_sdk::Vec::to_val`: the host value of a vector of milestone rows.
#[verifier::external_body]
pub(crate) fn milestones_to_val(rows: &MilestoneRows) -> (value: Val)
    ensures
        host_value(value) == Stored::Milestones(milestone_rows(*rows)),
{
    rows.to_val()
}

/// `TryFromVal` for `soroban_sdk::Vec`: gives back the vector of milestone rows.
/// It fails on anything but a vector.
#[verifier::external_body]
pub(crate) fn milestones_from_val(env: &Env, value: &Val) -> (rows: MilestoneRows)
    requires
        host_value(*value) is Milestones,
    ensures
        host_value(*value) == Stored::Milestones(milestone_rows(rows)),
{
    MilestoneRows::try_from_val(env, value).unwrap()
}

/// `soroban_sdk::Vec::new`: a vector without rows.
#[verifier::external_body]
pub(crate) fn rows_new(env: &Env) -> (rows: MilestoneRows)
    ensures
        milestone_rows(rows) == Seq::<MilestoneRow>::empty(),
{
    soroban_sdk::Vec::new(env)
}

/// `soroban_sdk::Vec::len`: the number of rows.
#[verifier::external_body]
pub(crate) fn rows_len(rows: &MilestoneRows) -> (len: u32)
    ensures
        len == milestone_rows(*rows).len(),
{
    rows.len()
}

/// `soroban_sdk::Vec::get`: the row at `index`, if there is one.
#[verifier::external_body]
pub(crate) fn rows_get(rows: &MilestoneRows, index: u32) -> (row: Option<MilestoneRow>)
    ensures
        row == if index < milestone_rows(*rows).len() {
            Some(milestone_rows(*rows)[index as int])
        } else {
            None
        },
{
    rows.get(index)
}

/// `soroban_sdk::Vec::set`: replaces the row at `index`. It panics where there is
/// none.
#[verifier::external_body]
pub(crate) fn rows_set(rows: &mut MilestoneRows, index: u32, row: MilestoneRow)
    requires
        index < milestone_rows(*old(rows)).len(),
    ensures
        milestone_rows(*final(rows)) == milestone_rows(*old(rows)).update(index as int, row),
{
    rows.set(index, row)
}

/// `soroban_sdk::Vec::push_back`: appends a row.
#[verifier::external_body]
pub(crate) fn rows_push(rows: &mut MilestoneRows, row: MilestoneRow)
    requires
        milestone_rows(*old(rows)).len() < u32::MAX,
    ensures
        milestone_rows(*final(rows)) == milestone_rows(*old(rows)).push(row),
{
    rows.push_back(row)
}

/// `soroban_sdk::Vec::new`: a list without items.
#[verifier::external_body]
pub(crate) fn unlocked_new(env: &Env) -> (list: UnlockedList)
    ensures
        unlocked_items(list) == Seq::<(u32, i128)>::empty(),
{
    soroban_sdk::Vec::new(env)
}

/// `soroban_sdk::Vec::is_empty`: whether there is no item.
#[verifier::external_body]
pub(crate) fn unlocked_is_empty(list: &UnlockedList) -> (empty: bool)
    ensures
        empty == (unlocked_items(*list).len() == 0),
{
    list.is_empty()
}

/// `soroban_sdk::Vec::push_back`: appends an item.
#[verifier::external_body]
pub(crate) fn unlocked_push(list: &mut UnlockedList, item: (u32, i128))
    requires
        unlocked_items(*old(list)).len() < u32::MAX,
    ensures
        unlocked_items(*final(list)) == unlocked_items(*old(list)).push(item),
{
    list.push_back(item)
}

} // verus!
