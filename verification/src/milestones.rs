//! The milestones of a campaign as a list, and which of them a raised amount
//! unlocks.

use crate::host::{
    milestone_rows, rows_get, rows_len, rows_new, rows_push, rows_set, MilestoneRows,
};
use crate::types::{MilestoneData, MilestoneRow, MilestoneStatus};
use soroban_sdk::Env;
use vstd::prelude::*;

verus! {

/// The rows of `milestones`.
pub open spec fn rows_of(milestones: Seq<MilestoneData>) -> Seq<MilestoneRow> {
    milestones.map_values(|m: MilestoneData| m.row())
}

/// The milestones of `rows`.
pub open spec fn milestones_of(rows: Seq<MilestoneRow>) -> Seq<MilestoneData> {
    rows.map_values(|row: MilestoneRow| MilestoneData::of_row(row))
}

/// Whether every one of `rows` is the row of a milestone.
pub open spec fn are_rows(rows: Seq<MilestoneRow>) -> bool {
    forall|i: int| 0 <= i < rows.len() ==> MilestoneData::is_row(#[trigger] rows[i])
}

/// A list of milestones, in a vector that the host holds.
pub struct MilestoneList {
    pub(crate) rows: MilestoneRows,
}

impl View for MilestoneList {
    type V = Seq<MilestoneData>;

    closed spec fn view(&self) -> Seq<MilestoneData> {
        milestones_of(milestone_rows(self.rows))
    }
}

impl MilestoneList {
    /// Every row of the vector is the row of a milestone.
    pub closed spec fn wf(&self) -> bool {
        are_rows(milestone_rows(self.rows))
    }

    /// A list without milestones.
    pub fn new(env: &Env) -> (list: MilestoneList)
        ensures
            list.wf(),
            list@ == Seq::<MilestoneData>::empty(),
    {
        MilestoneList { rows: rows_new(env) }
    }

    /// The list that `rows` holds.
    pub(crate) fn from_rows(rows: MilestoneRows) -> (list: MilestoneList)
        requires
            are_rows(milestone_rows(rows)),
        ensures
            list.wf(),
            list@ == milestones_of(milestone_rows(rows)),
    {
        MilestoneList { rows }
    }

    /// The vector that holds the list.
    pub(crate) fn as_rows(&self) -> (rows: &MilestoneRows)
        requires
            self.wf(),
        ensures
            milestone_rows(*rows) == rows_of(self@),
            are_rows(milestone_rows(*rows)),
    {
        assert(milestone_rows(self.rows) =~= rows_of(self@));
        &self.rows
    }

    /// The number of milestones.
    pub fn len(&self) -> (len: u32)
        ensures
            len == self@.len(),
    {
        rows_len(&self.rows)
    }

    /// The milestone at `index`, if there is one.
    pub fn get(&self, index: u32) -> (milestone: Option<MilestoneData>)
        requires
            self.wf(),
        ensures
            milestone == if index < self@.len() {
                Some(self@[index as int])
            } else {
                None
            },
    {
        match rows_get(&self.rows, index) {
            Some(row) => Some(MilestoneData::from_row(row)),
            None => None,
        }
    }

    /// Replaces the milestone at `index`.
    pub fn set(&mut self, index: u32, milestone: &MilestoneData)
        requires
            old(self).wf(),
            index < old(self)@.len(),
        ensures
            final(self).wf(),
            final(self)@ == old(self)@.update(index as int, *milestone),
    {
        rows_set(&mut self.rows, index, milestone.to_row());
        assert(self@ =~= old(self)@.update(index as int, *milestone));
    }

    /// Appends a milestone.
    pub fn push_back(&mut self, milestone: &MilestoneData)
        requires
            old(self).wf(),
            old(self)@.len() < u32::MAX,
        ensures
            final(self).wf(),
            final(self)@ == old(self)@.push(*milestone),
    {
        rows_push(&mut self.rows, milestone.to_row());
        assert(self@ =~= old(self)@.push(*milestone));
    }
}

/// Whether no target up to the milestone at `i` is above `raised`. The scan for
/// milestones to unlock gets as far as these.
pub open spec fn reached(milestones: Seq<MilestoneData>, raised: i128, i: int) -> bool {
    forall|j: int| 0 <= j <= i ==> (#[trigger] milestones[j]).target_amount <= raised
}

/// Whether `raised` unlocks the milestone at `i`.
pub open spec fn unlocks(milestones: Seq<MilestoneData>, raised: i128, i: int) -> bool {
    &&& milestones[i].status is Locked
    &&& reached(milestones, raised, i)
}

/// The milestones after all that `raised` unlocks have been unlocked.
pub open spec fn after_unlock(milestones: Seq<MilestoneData>, raised: i128) -> Seq<MilestoneData> {
    Seq::new(
        milestones.len(),
        |i: int|
            if unlocks(milestones, raised, i) {
                MilestoneData { status: MilestoneStatus::Unlocked, ..milestones[i] }
            } else {
                milestones[i]
            },
    )
}

/// Index and target of each of the first `n` milestones that `raised` unlocks,
/// in order.
pub open spec fn unlocked_up_to(
    milestones: Seq<MilestoneData>,
    raised: i128,
    n: nat,
) -> Seq<(u32, i128)>
    decreases n,
{
    if n == 0 {
        Seq::empty()
    } else {
        let i = (n - 1) as nat;
        let before = unlocked_up_to(milestones, raised, i);
        if unlocks(milestones, raised, i as int) {
            before.push((i as u32, milestones[i as int].target_amount))
        } else {
            before
        }
    }
}

/// Index and target of each milestone that `raised` unlocks, in order.
pub open spec fn newly_unlocked(milestones: Seq<MilestoneData>, raised: i128) -> Seq<(u32, i128)> {
    unlocked_up_to(milestones, raised, milestones.len())
}

/// Behind a target above `raised`, nothing is unlocked.
pub(crate) proof fn lemma_scan_ends(milestones: Seq<MilestoneData>, raised: i128, n: nat)
    requires
        n < milestones.len(),
        milestones[n as int].target_amount > raised,
    ensures
        newly_unlocked(milestones, raised) == unlocked_up_to(milestones, raised, n),
        forall|i: int|
            n <= i < milestones.len() ==> #[trigger] after_unlock(milestones, raised)[i]
                == milestones[i],
{
    assert forall|i: int| n <= i implies !#[trigger] reached(milestones, raised, i) by {
        assert(milestones[n as int].target_amount > raised);
    }
    lemma_nothing_more(milestones, raised, n, milestones.len());
}

/// A list that is not empty names a milestone that was unlocked.
pub(crate) proof fn lemma_some_unlocked(milestones: Seq<MilestoneData>, raised: i128, n: nat)
    requires
        unlocked_up_to(milestones, raised, n).len() > 0,
    ensures
        exists|i: int| 0 <= i < n && #[trigger] unlocks(milestones, raised, i),
    decreases n,
{
    if n > 0 && !unlocks(milestones, raised, n - 1) {
        lemma_some_unlocked(milestones, raised, (n - 1) as nat);
    }
}

/// Milestones that are not unlocked add nothing to the list.
pub(crate) proof fn lemma_nothing_more(milestones: Seq<MilestoneData>, raised: i128, m: nat, n: nat)
    requires
        m <= n,
        forall|i: int| m <= i < n ==> !#[trigger] unlocks(milestones, raised, i),
    ensures
        unlocked_up_to(milestones, raised, n) == unlocked_up_to(milestones, raised, m),
    decreases n,
{
    if m < n {
        assert(!unlocks(milestones, raised, n - 1));
        lemma_nothing_more(milestones, raised, m, (n - 1) as nat);
    }
}

} // verus!
