//! What every operation of a campaign keeps: entries have the shape that
//! belongs under their keys, totals are not negative, and the milestones can be
//! read.

use crate::host::{Entry, KeyPart, Stored};
use crate::keys::{lemma_keys_are_distinct, DataKey};
use crate::ledger::{fits, lemma_same_milestones, same_values, LedgerView};
use vstd::prelude::*;

verus! {

impl LedgerView {
    /// The state that a campaign keeps its ledger in. An empty ledger is in it,
    /// and no operation leaves it.
    pub open spec fn coherent(self) -> bool {
        &&& forall|key: DataKey| #[trigger] self.sound(key)
        &&& forall|key: DataKey| #[trigger] self.temp_sound(key)
        &&& forall|key: DataKey| is_total(key) ==> #[trigger] self.amount(key) >= 0
        &&& self.milestones_sound()
    }
}

/// Whether `key` holds a total, which is never negative.
pub open spec fn is_total(key: DataKey) -> bool {
    key is TotalRaised || key is AssetRaised
}

/// Whether a write of `value` under `key` keeps `l` coherent.
pub open spec fn keeps_coherent(l: LedgerView, key: DataKey, value: Stored) -> bool {
    &&& fits(key, value)
    &&& is_total(key) ==> value->Amount_0 >= 0
    &&& key matches DataKey::MilestoneData(index) ==> l.has(DataKey::MilestonesVec) || index
        != l.legacy_len()
}

/// Two ledgers that hold the same values are coherent alike.
proof fn lemma_same_values(a: LedgerView, b: LedgerView)
    requires
        a.coherent(),
        same_values(a, b),
        forall|key: DataKey| #[trigger] b.temp_sound(key),
    ensures
        b.coherent(),
{
    assert forall|key: DataKey| #[trigger] b.sound(key) by {
        assert(a.sound(key));
        assert(a.has(key) == b.has(key));
    }
    assert forall|key: DataKey| is_total(key) implies #[trigger] b.amount(key) >= 0 by {
        assert(a.amount(key) >= 0);
        assert(a.has(key) == b.has(key));
    }
    lemma_same_milestones(a, b);
}

/// A bump keeps the ledger coherent.
pub broadcast proof fn lemma_bump_keeps_coherent(l: LedgerView, key: DataKey)
    requires
        l.coherent(),
    ensures
        #[trigger] l.bump(key).coherent(),
{
    assert forall|other: DataKey| #[trigger] l.bump(key).temp_sound(other) by {
        assert(l.temp_sound(other));
    }
    lemma_same_values(l, l.bump(key));
}

/// A bump of many entries keeps the ledger coherent.
pub broadcast proof fn lemma_bump_set_keeps_coherent(l: LedgerView, keys: Set<Seq<KeyPart>>)
    requires
        l.coherent(),
    ensures
        #[trigger] l.bump_set(keys).coherent(),
{
    assert forall|other: DataKey| #[trigger] l.bump_set(keys).temp_sound(other) by {
        assert(l.temp_sound(other));
    }
    lemma_same_values(l, l.bump_set(keys));
}

/// A write of a value that belongs under its key keeps the ledger coherent.
pub broadcast proof fn lemma_store_keeps_coherent(l: LedgerView, key: DataKey, value: Stored)
    requires
        l.coherent(),
        keeps_coherent(l, key, value),
    ensures
        #[trigger] l.store(key, value).coherent(),
{
    let after = l.store(key, value);
    assert forall|other: DataKey|
        #![trigger after.has(other)]
        other != key implies after.has(other) == l.has(other) && after.value(other) == l.value(
        other,
    ) by {
        if other.parts() == key.parts() {
            lemma_keys_are_distinct(other, key);
        }
    }
    assert(after.has(key) && after.value(key) == value);
    assert forall|other: DataKey| #[trigger] after.sound(other) by {
        assert(l.sound(other));
        assert(after.has(other) || !after.has(other));
    }
    assert forall|other: DataKey| #[trigger] after.temp_sound(other) by {
        assert(l.temp_sound(other));
    }
    assert forall|other: DataKey| is_total(other) implies #[trigger] after.amount(other) >= 0 by {
        assert(l.amount(other) >= 0);
        assert(after.has(other) || !after.has(other));
    }
    assert(after.has(DataKey::MilestonesVec) || !after.has(DataKey::MilestonesVec));
    if after.has(DataKey::MilestonesVec) {
        assert(after.sound(DataKey::MilestonesVec));
    } else {
        assert(!l.has(DataKey::MilestonesVec));
        let n = l.legacy_len();
        assert(l.first_gap(n));
        assert(after.has(DataKey::MilestoneData(n as u32)) == l.has(
            DataKey::MilestoneData(n as u32),
        ));
        assert forall|i: u32| i < n implies #[trigger] after.has(DataKey::MilestoneData(i)) by {
            assert(l.has(DataKey::MilestoneData(i)));
        }
        assert(after.first_gap(n));
    }
}

/// A write of a temporary value that belongs under its key keeps the ledger
/// coherent.
pub broadcast proof fn lemma_temp_put_keeps_coherent(l: LedgerView, key: DataKey, value: Stored)
    requires
        l.coherent(),
        fits(key, value),
    ensures
        #[trigger] l.temp_put(key, value).coherent(),
{
    let after = l.temp_put(key, value);
    assert forall|other: DataKey| #[trigger] after.temp_sound(other) by {
        assert(l.temp_sound(other));
        if other.parts() == key.parts() {
            lemma_keys_are_distinct(other, key);
        }
    }
    lemma_same_values(l, after);
}

/// A longer ttl of a temporary entry keeps the ledger coherent.
pub broadcast proof fn lemma_temp_extend_keeps_coherent(l: LedgerView, key: DataKey, threshold: u32)
    requires
        l.coherent(),
        l.temp_has(key),
    ensures
        #[trigger] l.temp_extend(key, threshold).coherent(),
{
    let after = l.temp_extend(key, threshold);
    assert forall|other: DataKey| #[trigger] after.temp_sound(other) by {
        assert(l.temp_sound(other));
    }
    lemma_same_values(l, after);
}

/// Removing a temporary entry keeps the ledger coherent.
pub broadcast proof fn lemma_temp_remove_keeps_coherent(l: LedgerView, key: DataKey)
    requires
        l.coherent(),
    ensures
        #[trigger] l.temp_remove(key).coherent(),
{
    let after = l.temp_remove(key);
    assert forall|other: DataKey| #[trigger] after.temp_sound(other) by {
        assert(l.temp_sound(other));
    }
    lemma_same_values(l, after);
}

pub broadcast group group_keeps_coherent {
    lemma_bump_keeps_coherent,
    lemma_bump_set_keeps_coherent,
    lemma_store_keeps_coherent,
    lemma_temp_put_keeps_coherent,
    lemma_temp_extend_keeps_coherent,
    lemma_temp_remove_keeps_coherent,
}

/// An empty ledger is coherent.
pub proof fn law_empty_ledger_is_coherent(l: LedgerView)
    requires
        l.persistent == Map::<Seq<KeyPart>, Entry>::empty(),
        l.temporary == Map::<Seq<KeyPart>, Entry>::empty(),
    ensures
        l.coherent(),
{
    assert(l.first_gap(0));
}

/// On a coherent ledger every entry can be read.
pub proof fn law_coherent_ledger_can_be_read(l: LedgerView, key: DataKey)
    requires
        l.coherent(),
    ensures
        l.sound(key),
        l.temp_sound(key),
        l.milestones_sound(),
{
}

} // verus!
