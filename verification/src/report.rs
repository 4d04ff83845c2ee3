//! What the platform reports of the pool's slots for one guild, and what
//! follows from a report: where a join goes, which slot hosts a channel,
//! which two slots a relay runs between.

use crate::error::AudioCommandError;
use crate::session::ascending;
use vstd::prelude::*;

verus! {

/// What the platform reports of one slot for a guild.
#[derive(Debug, Clone, Copy, PartialEq, Eq, Structural)]
pub enum SlotStatus {
    /// The slot holds no connection for the guild.
    Absent,
    /// The slot holds a connection for the guild that is in no channel.
    Idle,
    /// The slot holds a connection for the guild, in this channel.
    InChannel(u64),
}

/// The slot holds a connection for the guild.
pub open spec fn occupied(status: SlotStatus) -> bool {
    !(status is Absent)
}

/// `i` is the first slot that holds no connection for the guild.
pub open spec fn first_free(report: Seq<SlotStatus>, i: int) -> bool {
    &&& 0 <= i < report.len()
    &&& !occupied(report[i])
    &&& forall|j: int| 0 <= j < i ==> occupied(report[j])
}

/// `i` is the first slot whose connection is in `channel`.
pub open spec fn first_hosting(report: Seq<SlotStatus>, channel: u64, i: int) -> bool {
    &&& 0 <= i < report.len()
    &&& report[i] == SlotStatus::InChannel(channel)
    &&& forall|j: int| 0 <= j < i ==> report[j] != SlotStatus::InChannel(channel)
}

/// The slot a join goes to: the first free one, if any slot is free.
pub open spec fn free_slot(report: Seq<SlotStatus>) -> Option<int> {
    if exists|i: int| first_free(report, i) {
        Some(choose|i: int| first_free(report, i))
    } else {
        None
    }
}

/// The slot that hosts `channel`: the first whose connection is in it.
pub open spec fn slot_of(report: Seq<SlotStatus>, channel: u64) -> Option<int> {
    if exists|i: int| first_hosting(report, channel, i) {
        Some(choose|i: int| first_hosting(report, channel, i))
    } else {
        None
    }
}

/// The two slots of a relay: both channels are hosted, and by different
/// slots. Anything else is a channel that was not found.
pub open spec fn relay_route(report: Seq<SlotStatus>, from_id: u64, to_id: u64) -> Result<
    (int, int),
    AudioCommandError,
> {
    match (slot_of(report, from_id), slot_of(report, to_id)) {
        (Some(from), Some(to)) => if from != to {
            Ok((from, to))
        } else {
            Err(AudioCommandError::ChannelNotFound)
        },
        _ => Err(AudioCommandError::ChannelNotFound),
    }
}

/// How many slots hold a connection for the guild.
pub open spec fn occupied_count(report: Seq<SlotStatus>) -> nat
    decreases report.len(),
{
    if report.len() == 0 {
        0
    } else {
        occupied_count(report.drop_last()) + if occupied(report.last()) {
            1nat
        } else {
            0nat
        }
    }
}

/// Finds the slot that hosts `channel`.
pub fn get_songbird_index_by_channel_id(report: &Vec<SlotStatus>, channel: u64) -> (found: Option<usize>)
    ensures
        match found {
            Some(i) => slot_of(report@, channel) == Some(i as int),
            None => slot_of(report@, channel).is_none(),
        },
{
    let mut i: usize = 0;
    while i < report.len()
        invariant
            i <= report.len(),
            forall|j: int| 0 <= j < i ==> report@[j] != SlotStatus::InChannel(channel),
        decreases report.len() - i,
    {
        let hit = match report[i] {
            SlotStatus::InChannel(c) => c == channel,
            _ => false,
        };
        if hit {
            assert(first_hosting(report@, channel, i as int));
            return Some(i);
        }
        i += 1;
    }
    None
}

/// Finds the slot a join goes to.
pub fn select_free_slot(report: &Vec<SlotStatus>) -> (found: Option<usize>)
    ensures
        match found {
            Some(i) => free_slot(report@) == Some(i as int),
            None => free_slot(report@).is_none(),
        },
{
    let mut i: usize = 0;
    while i < report.len()
        invariant
            i <= report.len(),
            forall|j: int| 0 <= j < i ==> occupied(report@[j]),
        decreases report.len() - i,
    {
        let free = match report[i] {
            SlotStatus::Absent => true,
            _ => false,
        };
        if free {
            assert(first_free(report@, i as int));
            return Some(i);
        }
        i += 1;
    }
    None
}

/// The slots that hold a connection for the guild, in ascending order.
pub fn occupied_slots(report: &Vec<SlotStatus>) -> (slots: Vec<usize>)
    ensures
        ascending(slots@),
        forall|s: usize| slots@.contains(s) <==> s < report@.len() && occupied(report@[s as int]),
{
    let mut slots: Vec<usize> = Vec::new();
    let mut i: usize = 0;
    while i < report.len()
        invariant
            i <= report.len(),
            ascending(slots@),
            forall|k: int| 0 <= k < slots@.len() ==> slots@[k] < i,
            forall|s: usize| slots@.contains(s) <==> s < i && occupied(report@[s as int]),
        decreases report.len() - i,
    {
        let taken = match report[i] {
            SlotStatus::Absent => false,
            _ => true,
        };
        if taken {
            let ghost before = slots@;
            slots.push(i);
            assert(slots@[before.len() as int] == i);
            assert forall|s: usize| slots@.contains(s) <==> s < i + 1 && occupied(
                report@[s as int],
            ) by {
                if slots@.contains(s) {
                    let k = choose|k: int| 0 <= k < slots@.len() && slots@[k] == s;
                    if k < before.len() {
                        assert(before[k] == s);
                        assert(before.contains(s));
                    }
                }
                if s < i && occupied(report@[s as int]) {
                    assert(before.contains(s));
                    let k = choose|k: int| 0 <= k < before.len() && before[k] == s;
                    assert(slots@[k] == s);
                }
            }
        }
        i += 1;
    }
    slots
}

/// No more slots hold a connection than the pool has, whatever the history
/// of joins and leaves, and a join finds no free slot exactly when all of
/// them hold one.
pub proof fn pool_capacity(report: Seq<SlotStatus>)
    ensures
        occupied_count(report) <= report.len(),
        free_slot(report).is_none() <==> occupied_count(report) == report.len(),
    decreases report.len(),
{
    if report.len() > 0 {
        let front = report.drop_last();
        let last = report.len() - 1;
        pool_capacity(front);
        if free_slot(front).is_some() {
            let i = free_slot(front).unwrap();
            assert(first_free(front, i));
            assert forall|j: int| 0 <= j <= i implies front[j] == report[j] by {}
            assert(first_free(report, i));
        } else if !occupied(report[last]) {
            assert forall|j: int| 0 <= j < last implies occupied(report[j]) by {
                assert(front[j] == report[j]);
                if !occupied(front[j]) {
                    lemma_some_slot_is_first_free(front, j);
                }
            }
            assert(first_free(report, last));
        } else {
            if free_slot(report).is_some() {
                let i = free_slot(report).unwrap();
                assert(first_free(report, i));
                assert forall|j: int| 0 <= j <= i implies front[j] == report[j] by {}
                assert(first_free(front, i));
            }
        }
    }
}

/// Where any slot up to `j` is free, some slot is the first free one.
proof fn lemma_some_slot_is_first_free(report: Seq<SlotStatus>, j: int)
    requires
        0 <= j < report.len(),
        !occupied(report[j]),
    ensures
        exists|i: int| first_free(report, i),
    decreases j,
{
    if forall|k: int| 0 <= k < j ==> occupied(report[k]) {
        assert(first_free(report, j));
    } else {
        let k = choose|k: int| 0 <= k < j && !occupied(report[k]);
        lemma_some_slot_is_first_free(report, k);
    }
}

/// A relay between two channels that the same slot hosts has no route: it
/// is refused as a channel that was not found.
pub proof fn self_relay_has_no_route(report: Seq<SlotStatus>, from_id: u64, to_id: u64)
    requires
        slot_of(report, from_id) == slot_of(report, to_id),
    ensures
        relay_route(report, from_id, to_id) == Err::<(int, int), AudioCommandError>(
            AudioCommandError::ChannelNotFound,
        ),
{
}

/// The platform's report for a guild once a join for `channel` has gone
/// through: the first free slot is in the channel. A full pool stays as it
/// is.
pub open spec fn report_after_join(report: Seq<SlotStatus>, channel: u64) -> Seq<SlotStatus> {
    match free_slot(report) {
        Some(slot) => report.update(slot, SlotStatus::InChannel(channel)),
        None => report,
    }
}

/// The platform's report for a guild once every slot has left it.
pub open spec fn report_after_leave(report: Seq<SlotStatus>) -> Seq<SlotStatus> {
    Seq::new(report.len(), |i: int| SlotStatus::Absent)
}

/// Taking a free slot raises the number of connections by one.
proof fn lemma_taking_a_slot_counts_one(report: Seq<SlotStatus>, slot: int, channel: u64)
    requires
        0 <= slot < report.len(),
        !occupied(report[slot]),
    ensures
        occupied_count(report.update(slot, SlotStatus::InChannel(channel))) == occupied_count(report) + 1,
    decreases report.len(),
{
    let taken = report.update(slot, SlotStatus::InChannel(channel));
    let last = report.len() - 1;
    if slot == last {
        assert(taken.drop_last() =~= report.drop_last());
    } else {
        assert(taken.drop_last() =~= report.drop_last().update(slot, SlotStatus::InChannel(channel)));
        lemma_taking_a_slot_counts_one(report.drop_last(), slot, channel);
    }
}

/// A pool that every slot has left holds no connection.
proof fn lemma_left_pool_is_empty(report: Seq<SlotStatus>)
    ensures
        occupied_count(report_after_leave(report)) == 0,
    decreases report.len(),
{
    if report.len() > 0 {
        lemma_left_pool_is_empty(report.drop_last());
        assert(report_after_leave(report).drop_last() =~= report_after_leave(report.drop_last()));
    }
}

/// Joins and leaves keep the number of slots, and with it the bound on the
/// number of connections: a join into a pool with a free slot adds one
/// connection, a join into a full pool changes nothing, and a leave ends
/// them all.
pub proof fn joins_and_leaves_keep_capacity(report: Seq<SlotStatus>, channel: u64)
    ensures
        report_after_join(report, channel).len() == report.len(),
        report_after_leave(report).len() == report.len(),
        occupied_count(report_after_join(report, channel)) <= report.len(),
        free_slot(report).is_some() ==> occupied_count(report_after_join(report, channel))
            == occupied_count(report) + 1,
        free_slot(report).is_none() ==> report_after_join(report, channel) == report,
        occupied_count(report_after_leave(report)) == 0,
{
    pool_capacity(report_after_join(report, channel));
    lemma_left_pool_is_empty(report);
    if free_slot(report).is_some() {
        let slot = free_slot(report).unwrap();
        assert(first_free(report, slot));
        lemma_taking_a_slot_counts_one(report, slot, channel);
    }
}

} // verus!
