//! The connection pool: a fixed number of slots, each of which can host one
//! voice connection and the relay session that goes with it.
//!
//! The pool does not talk to the platform. Whoever drives it asks the
//! platform what each slot holds for a guild, hands that report in with a
//! command, and carries out what the pool decides.

use crate::error::AudioCommandError;
use crate::session::{
    after_attach, after_connect, after_disconnect, after_stop, ascending, attachable, handles_in,
    released_by_stop, wants_track, AudioTx,
};
use crate::keyed::leaving_out;
use crate::report::{
    free_slot, get_songbird_index_by_channel_id, occupied, occupied_slots, relay_route,
    select_free_slot, SlotStatus,
};
use std::sync::Arc;
use vstd::prelude::*;

verus! {

/// How many frames a source's channel keeps for a slow reader.
pub const FRAME_DEPTH: usize = 5;

/// The bitrate assumed for a channel whose metadata gives none.
pub const DEFAULT_BITRATE: u32 = 64000;

/// A request to the relay engine.
#[derive(Debug, Clone, Copy, PartialEq, Eq, Structural)]
pub enum AudioCommandPayload {
    /// Connect a free slot to a channel of a guild.
    Join(u64, u64),
    /// Disconnect every slot from a guild.
    Remove(u64, u64),
    /// Relay what is heard in `from_id` into `to_id`.
    Connect { gid: u64, from_id: u64, to_id: u64 },
    /// End the relay from `from_id` into `to_id`.
    Disconnect { gid: u64, from_id: u64, to_id: u64 },
}

/// The bitrate to assume for a channel.
pub fn bitrate_or_default(bitrate: Option<u32>) -> (rate: u32)
    ensures
        rate == match bitrate {
            Some(b) => b,
            None => DEFAULT_BITRATE,
        },
{
    match bitrate {
        Some(b) => b,
        None => DEFAULT_BITRATE,
    }
}

/// What a relay that was set up asks of the host: release the handles in
/// `released`, then start a track into slot `to` for every source in
/// `sources`, which are the ones speaking in slot `from` right now.
#[derive(Debug)]
pub struct RelayPlan<H> {
    pub from: usize,
    pub to: usize,
    pub sources: Vec<u32>,
    pub released: Vec<H>,
}

/// The sessions that leave the pool when every occupied slot is cleared, in
/// the order of their slots.
pub open spec fn cleared_sessions<H>(sessions: Seq<Option<AudioTx<H>>>, report: Seq<SlotStatus>) -> Seq<
    AudioTx<H>,
>
    decreases sessions.len(),
{
    if sessions.len() == 0 {
        Seq::empty()
    } else {
        let last = sessions.len() - 1;
        let front = cleared_sessions(sessions.drop_last(), report);
        if last < report.len() && occupied(report[last]) && sessions[last].is_some() {
            front.push(sessions[last].unwrap())
        } else {
            front
        }
    }
}

/// A slot once every occupied slot is cleared.
pub open spec fn cleared_slot<H>(session: Option<AudioTx<H>>, report: Seq<SlotStatus>, slot: int) -> Option<
    AudioTx<H>,
> {
    if slot < report.len() && occupied(report[slot]) {
        None
    } else {
        session
    }
}

/// The pool of slots with the relay session that each one hosts.
#[derive(Debug)]
pub struct AudioServiceHandler<H> {
    txs: Vec<Option<AudioTx<H>>>,
}

impl<H> AudioServiceHandler<H> {
    /// For each slot, the session it hosts, if it hosts one.
    pub closed spec fn sessions(self) -> Seq<Option<AudioTx<H>>> {
        self.txs@
    }

    /// Every session can open channels and knows as many slots as the pool
    /// has.
    pub open spec fn wf(self) -> bool {
        forall|i: int|
            0 <= i < self.sessions().len() && (#[trigger] self.sessions()[i]).is_some() ==> {
                &&& self.sessions()[i].unwrap().wf()
                &&& self.sessions()[i].unwrap().targets().len() == self.sessions().len()
            }
    }

    /// `self` and `other` have the same slots and agree on all but `slot`.
    pub open spec fn same_but(self, other: Self, slot: int) -> bool {
        &&& self.sessions().len() == other.sessions().len()
        &&& forall|j: int|
            0 <= j < self.sessions().len() && j != slot ==> self.sessions()[j] == other.sessions()[j]
    }

    /// What setting up a relay does to the pool and hands back.
    pub open spec fn relay_set_up(
        before_pool: Self,
        after_pool: Self,
        report: Seq<SlotStatus>,
        from_id: u64,
        to_id: u64,
        done: Result<RelayPlan<H>, AudioCommandError>,
    ) -> bool {
            match done {
                Ok(plan) => {
                    &&& relay_route(report, from_id, to_id) == Ok::<(int, int), AudioCommandError>(
                        (plan.from as int, plan.to as int),
                    )
                    &&& after_pool.same_but(before_pool, plan.from as int)
                    &&& before_pool.sessions()[plan.from as int] matches Some(before)
                    &&& after_pool.sessions()[plan.from as int] matches Some(after)
                    &&& after.targets() == after_connect(before.targets(), plan.to as int)
                    &&& after.sources() == before.sources()
                    &&& after.channel() == before.channel()
                    &&& after.depth() == before.depth()
                    &&& plan.sources@ == before.sources()
                    &&& plan.released@ == handles_in(before.targets()[plan.to as int])
                },
                Err(e) => {
                    &&& after_pool.sessions() == before_pool.sessions()
                    &&& match relay_route(report, from_id, to_id) {
                        Ok((from, _)) => e == AudioCommandError::AudioTxNotFound && before_pool.sessions()[from].is_none(),
                        Err(_) => e == AudioCommandError::ChannelNotFound,
                    }
                },
            }
    }

    /// What ending a relay does to the pool and hands back.
    pub open spec fn relay_ended(
        before_pool: Self,
        after_pool: Self,
        report: Seq<SlotStatus>,
        from_id: u64,
        to_id: u64,
        done: Result<Vec<H>, AudioCommandError>,
    ) -> bool {
            match done {
                Ok(released) => {
                    &&& relay_route(report, from_id, to_id) matches Ok((from, to))
                    &&& after_pool.same_but(before_pool, from)
                    &&& before_pool.sessions()[from] matches Some(before)
                    &&& after_pool.sessions()[from] matches Some(after)
                    &&& after.targets() == after_disconnect(before.targets(), to)
                    &&& after.sources() == before.sources()
                    &&& after.channel() == before.channel()
                    &&& after.depth() == before.depth()
                    &&& released@ == handles_in(before.targets()[to])
                },
                Err(e) => {
                    &&& after_pool.sessions() == before_pool.sessions()
                    &&& match relay_route(report, from_id, to_id) {
                        Ok((from, _)) => e == AudioCommandError::AudioTxNotFound && before_pool.sessions()[from].is_none(),
                        Err(_) => e == AudioCommandError::ChannelNotFound,
                    }
                },
            }
    }

    /// What clearing the occupied slots does to the pool and hands back.
    pub open spec fn pool_cleared(
        before_pool: Self,
        after_pool: Self,
        report: Seq<SlotStatus>,
        slots: Seq<usize>,
        sessions: Seq<AudioTx<H>>,
    ) -> bool {
            &&& ascending(slots)
            &&& forall|s: usize|
                slots.contains(s) <==> s < report.len() && occupied(report[s as int])
            &&& sessions == cleared_sessions(before_pool.sessions(), report)
            &&& after_pool.sessions().len() == before_pool.sessions().len()
            &&& forall|i: int|
                0 <= i < before_pool.sessions().len() ==> after_pool.sessions()[i] == cleared_slot(
                    before_pool.sessions()[i],
                    report,
                    i,
                )
    }

    /// A pool of `slots` slots, none of which hosts a session.
    pub fn new(slots: usize) -> (made: Self)
        ensures
            made.wf(),
            made.sessions().len() == slots,
            forall|i: int| 0 <= i < slots ==> made.sessions()[i].is_none(),
    {
        let mut txs: Vec<Option<AudioTx<H>>> = Vec::new();
        let mut i: usize = 0;
        while i < slots
            invariant
                i <= slots,
                txs@.len() == i,
                forall|k: int| 0 <= k < i ==> txs@[k].is_none(),
            decreases slots - i,
        {
            txs.push(None);
            i += 1;
        }
        AudioServiceHandler { txs }
    }

    /// How many slots the pool has.
    pub fn size(&self) -> (slots: usize)
        ensures
            slots == self.sessions().len(),
    {
        self.txs.len()
    }

    /// Whether `slot` hosts a session.
    pub fn has_session(&self, slot: usize) -> (yes: bool)
        ensures
            yes == (slot < self.sessions().len() && self.sessions()[slot as int].is_some()),
    {
        slot < self.txs.len() && self.txs[slot].is_some()
    }

    /// Picks the slot for a join: the first that holds no connection for the
    /// guild. Where every slot holds one the join is refused, and the pool
    /// is not touched either way. The host then connects the slot and
    /// reports the outcome with `finish_join`.
    pub fn join(&self, report: &Vec<SlotStatus>) -> (chosen: Result<usize, AudioCommandError>)
        ensures
            match chosen {
                Ok(slot) => free_slot(report@) == Some(slot as int),
                Err(e) => e == AudioCommandError::BotUsedFull && free_slot(report@).is_none(),
            },
    {
        match select_free_slot(report) {
            Some(slot) => Ok(slot),
            None => Err(AudioCommandError::BotUsedFull),
        }
    }

    /// Ends a join. Where the platform did not connect the slot, the join
    /// fails and the pool stays as it was. Where it did, the slot gets a new
    /// session for `channel` in which nobody speaks and nothing is relayed;
    /// the session it hosted before, if any, is handed back for release.
    pub fn finish_join(&mut self, slot: usize, channel: u64, connected: bool) -> (done: Result<
        Option<AudioTx<H>>,
        AudioCommandError,
    >)
        requires
            old(self).wf(),
            slot < old(self).sessions().len(),
        ensures
            final(self).wf(),
            !connected ==> done == Err::<Option<AudioTx<H>>, AudioCommandError>(
                AudioCommandError::UnknownError,
            ) && final(self).sessions() == old(self).sessions(),
            connected ==> {
                &&& done == Ok::<Option<AudioTx<H>>, AudioCommandError>(old(self).sessions()[slot as int])
                &&& final(self).same_but(*old(self), slot as int)
                &&& final(self).sessions()[slot as int] matches Some(session)
                &&& session.channel() == channel
                &&& session.depth() == FRAME_DEPTH
                &&& session.sources() == Seq::<u32>::empty()
                &&& session.targets() == Seq::new(
                    old(self).sessions().len(),
                    |i: int| None::<Seq<(u32, H)>>,
                )
            },
    {
        if !connected {
            return Err(AudioCommandError::UnknownError);
        }
        let session: AudioTx<H> = AudioTx::new(FRAME_DEPTH, self.txs.len(), channel);
        let before = self.txs.remove(slot);
        self.txs.insert(slot, Some(session));
        Ok(before)
    }

    /// Clears every slot that holds a connection for the guild. Hands back
    /// the slots the host is to disconnect, in ascending order, and the
    /// sessions they hosted, for release. A failure to disconnect one slot
    /// does not keep the host from the others, and the command succeeds.
    pub fn remove(&mut self, report: &Vec<SlotStatus>) -> (cleared: (Vec<usize>, Vec<AudioTx<H>>))
        requires
            old(self).wf(),
        ensures
            final(self).wf(),
            Self::pool_cleared(*old(self), *final(self), report@, cleared.0@, cleared.1@),
    {
        let slots = occupied_slots(report);
        let mut sessions: Vec<AudioTx<H>> = Vec::new();
        let mut kept: Vec<Option<AudioTx<H>>> = Vec::new();
        let mut rest: Vec<Option<AudioTx<H>>> = Vec::new();
        std::mem::swap(&mut rest, &mut self.txs);
        let ghost all = rest@;
        let total: usize = rest.len();
        let mut i: usize = 0;
        while rest.len() > 0
            invariant
                all == old(self).sessions(),
                all.len() == total,
                i + rest@.len() == all.len(),
                forall|k: int| 0 <= k < rest@.len() ==> rest@[k] == all[i + k],
                kept@.len() == i,
                forall|k: int| 0 <= k < i ==> kept@[k] == cleared_slot(all[k], report@, k),
                sessions@ == cleared_sessions(all.take(i as int), report@),
            decreases rest.len(),
        {
            let entry = rest.remove(0);
            let gone = i < report.len() && match report[i] {
                SlotStatus::Absent => false,
                _ => true,
            };
            proof {
                assert(all.take(i + 1).drop_last() =~= all.take(i as int));
            }
            if gone {
                kept.push(None);
                match entry {
                    Some(session) => {
                        sessions.push(session);
                    },
                    None => {},
                }
            } else {
                kept.push(entry);
            }
            i += 1;
        }
        assert(all.take(i as int) =~= all);
        self.txs = kept;
        (slots, sessions)
    }

    /// Sets up the relay from the slot that hosts `from_id` into the slot
    /// that hosts `to_id`. Fails with `ChannelNotFound` where either channel
    /// is hosted by no slot or both are hosted by the same one, and with
    /// `AudioTxNotFound` where the hosting slot has no session; the pool
    /// then stays as it was.
    pub fn connect(&mut self, report: &Vec<SlotStatus>, from_id: u64, to_id: u64) -> (done: Result<
        RelayPlan<H>,
        AudioCommandError,
    >)
        requires
            old(self).wf(),
            report@.len() == old(self).sessions().len(),
        ensures
            final(self).wf(),
            Self::relay_set_up(*old(self), *final(self), report@, from_id, to_id, done),
    {
        let to_idx = get_songbird_index_by_channel_id(report, to_id);
        let from_idx = get_songbird_index_by_channel_id(report, from_id);
        match (from_idx, to_idx) {
            (Some(from), Some(to)) => {
                if from == to {
                    return Err(AudioCommandError::ChannelNotFound);
                }
                if self.txs[from].is_none() {
                    return Err(AudioCommandError::AudioTxNotFound);
                }
                match self.txs.remove(from) {
                    Some(session) => {
                        let mut session = session;
                        let released = session.connect_to(to);
                        let sources = session.speaking();
                        self.txs.insert(from, Some(session));
                        Ok(RelayPlan { from, to, sources, released })
                    },
                    None => {
                        self.txs.insert(from, None);
                        Err(AudioCommandError::AudioTxNotFound)
                    },
                }
            },
            _ => Err(AudioCommandError::ChannelNotFound),
        }
    }

    /// Ends the relay from the slot that hosts `from_id` into the slot that
    /// hosts `to_id` and hands back the tracks that played into the target,
    /// for release. Fails as `connect` does, and then changes nothing.
    pub fn disconnect(&mut self, report: &Vec<SlotStatus>, from_id: u64, to_id: u64) -> (done: Result<
        Vec<H>,
        AudioCommandError,
    >)
        requires
            old(self).wf(),
            report@.len() == old(self).sessions().len(),
        ensures
            final(self).wf(),
            Self::relay_ended(*old(self), *final(self), report@, from_id, to_id, done),
    {
        let to_idx = get_songbird_index_by_channel_id(report, to_id);
        let from_idx = get_songbird_index_by_channel_id(report, from_id);
        match (from_idx, to_idx) {
            (Some(from), Some(to)) => {
                if from == to {
                    return Err(AudioCommandError::ChannelNotFound);
                }
                if self.txs[from].is_none() {
                    return Err(AudioCommandError::AudioTxNotFound);
                }
                match self.txs.remove(from) {
                    Some(session) => {
                        let mut session = session;
                        let released = session.disconnect_to(to);
                        self.txs.insert(from, Some(session));
                        Ok(released)
                    },
                    None => {
                        self.txs.insert(from, None);
                        Err(AudioCommandError::AudioTxNotFound)
                    },
                }
            },
            _ => Err(AudioCommandError::ChannelNotFound),
        }
    }
}

impl<H> AudioServiceHandler<H> {
    /// Tells the session of `slot` that `ssrc` has started to speak, as
    /// `AudioTx::new_speaking_ssrc` does. A slot without a session asks for
    /// no track.
    pub fn new_speaking_ssrc(&mut self, slot: usize, ssrc: u32, connected: &Vec<bool>) -> (plan: Vec<
        usize,
    >)
        requires
            old(self).wf(),
            slot < old(self).sessions().len(),
        ensures
            final(self).wf(),
            final(self).same_but(*old(self), slot as int),
            match old(self).sessions()[slot as int] {
                None => final(self).sessions()[slot as int].is_none() && plan@.len() == 0,
                Some(before) => {
                    &&& final(self).sessions()[slot as int] matches Some(after)
                    &&& after.targets() == before.targets()
                    &&& after.depth() == before.depth()
                    &&& after.channel() == before.channel()
                    &&& before.sources().contains(ssrc) ==> after.sources() == before.sources()
                        && plan@.len() == 0
                    &&& !before.sources().contains(ssrc) ==> after.sources()
                        == before.sources().push(ssrc) && ascending(plan@) && forall|s: usize|
                        plan@.contains(s) <==> wants_track(before.targets(), connected@, s as int)
                },
            },
    {
        if self.txs[slot].is_none() {
            return Vec::new();
        }
        match self.txs.remove(slot) {
            Some(session) => {
                let mut session = session;
                let plan = session.new_speaking_ssrc(ssrc, connected);
                self.txs.insert(slot, Some(session));
                plan
            },
            None => {
                self.txs.insert(slot, None);
                Vec::new()
            },
        }
    }

    /// Tells the session of `slot` that `ssrc` has stopped speaking, as
    /// `AudioTx::delete_speaking_ssrc` does, and hands back the tracks that
    /// replayed it, for release.
    pub fn delete_speaking_ssrc(&mut self, slot: usize, ssrc: u32) -> (released: Vec<H>)
        requires
            old(self).wf(),
            slot < old(self).sessions().len(),
        ensures
            final(self).wf(),
            final(self).same_but(*old(self), slot as int),
            match old(self).sessions()[slot as int] {
                None => final(self).sessions()[slot as int].is_none() && released@.len() == 0,
                Some(before) => {
                    &&& final(self).sessions()[slot as int] matches Some(after)
                    &&& after.sources() == leaving_out(before.sources(), ssrc)
                    &&& after.targets() == after_stop(before.targets(), ssrc)
                    &&& after.depth() == before.depth()
                    &&& after.channel() == before.channel()
                    &&& released@ == released_by_stop(before.targets(), ssrc)
                },
            },
    {
        if self.txs[slot].is_none() {
            return Vec::new();
        }
        match self.txs.remove(slot) {
            Some(session) => {
                let mut session = session;
                let released = session.delete_speaking_ssrc(ssrc);
                assert(after_stop(old(self).sessions()[slot as int].unwrap().targets(), ssrc).len()
                    == old(self).sessions().len());
                self.txs.insert(slot, Some(session));
                released
            },
            None => {
                self.txs.insert(slot, None);
                Vec::new()
            },
        }
    }

    /// Stores, in the session of slot `from`, the handle of a track that was
    /// started for `ssrc` in slot `to`, as `AudioTx::attach_track` does.
    /// Without a session the handle comes back for release.
    pub fn attach_track(&mut self, from: usize, to: usize, ssrc: u32, handle: H) -> (refused: Option<H>)
        requires
            old(self).wf(),
            from < old(self).sessions().len(),
        ensures
            final(self).wf(),
            final(self).same_but(*old(self), from as int),
            match old(self).sessions()[from as int] {
                None => final(self).sessions()[from as int].is_none() && refused == Some(handle),
                Some(before) => {
                    &&& final(self).sessions()[from as int] matches Some(after)
                    &&& after.sources() == before.sources()
                    &&& after.depth() == before.depth()
                    &&& after.channel() == before.channel()
                    &&& attachable(before.sources(), before.targets(), to as int, ssrc)
                        ==> refused.is_none() && after.targets() == after_attach(
                        before.targets(),
                        to as int,
                        ssrc,
                        handle,
                    )
                    &&& !attachable(before.sources(), before.targets(), to as int, ssrc) ==> refused
                        == Some(handle) && after.targets() == before.targets()
                },
            },
    {
        if self.txs[from].is_none() {
            return Some(handle);
        }
        match self.txs.remove(from) {
            Some(session) => {
                let mut session = session;
                let refused = session.attach_track(to, ssrc, handle);
                self.txs.insert(from, Some(session));
                refused
            },
            None => {
                self.txs.insert(from, None);
                Some(handle)
            },
        }
    }

    /// Publishes one frame of `ssrc` through the session of `slot`, as
    /// `AudioTx::send` does.
    pub fn send(&self, slot: usize, voice: &Vec<u8>, ssrc: u32) -> (queued: bool)
        ensures
            queued ==> slot < self.sessions().len() && self.sessions()[slot as int].is_some()
                && self.sessions()[slot as int].unwrap().sources().contains(ssrc),
    {
        if slot >= self.txs.len() {
            return false;
        }
        match &self.txs[slot] {
            Some(session) => session.send(voice, ssrc),
            None => false,
        }
    }

    /// A new subscription to the frames of `ssrc` in the session of `slot`;
    /// nothing where the slot has no session or the source is not speaking.
    pub fn subscribe(&self, slot: usize, ssrc: u32) -> (rx: Option<
        tokio::sync::broadcast::Receiver<Arc<[u8]>>,
    >)
        ensures
            rx.is_some() <==> slot < self.sessions().len() && self.sessions()[slot as int].is_some()
                && self.sessions()[slot as int].unwrap().sources().contains(ssrc),
    {
        if slot >= self.txs.len() {
            return None;
        }
        match &self.txs[slot] {
            Some(session) => session.subscribe(ssrc),
            None => None,
        }
    }

    /// How many tracks the session of slot `from` plays into slot `to`.
    pub fn track_count(&self, from: usize, to: usize) -> (count: usize)
        ensures
            count == if from < self.sessions().len() && self.sessions()[from as int].is_some() && to
                < self.sessions()[from as int].unwrap().targets().len() {
                handles_in(self.sessions()[from as int].unwrap().targets()[to as int]).len()
            } else {
                0
            },
    {
        if from >= self.txs.len() {
            return 0;
        }
        match &self.txs[from] {
            Some(session) => session.track_count(to),
            None => 0,
        }
    }
}

/// What the host does after a command was taken in.
#[derive(Debug)]
pub enum Outcome<H> {
    /// Answer the command with this result.
    Reply(Result<(), AudioCommandError>),
    /// Connect `slot` to `channel` of `guild`, report the outcome with
    /// `finish_join`, and answer with what that gives.
    ConnectSlot { slot: usize, guild: u64, channel: u64 },
    /// Disconnect each of `slots` from `guild`, release `sessions`, and
    /// answer with success.
    Leave { guild: u64, slots: Vec<usize>, sessions: Vec<AudioTx<H>> },
    /// Carry out the plan and answer with success.
    Relay(RelayPlan<H>),
    /// Release the handles and answer with success.
    Unrelay(Vec<H>),
}

impl<H> AudioServiceHandler<H> {
    /// What a command does to the pool and asks of the host, given the
    /// platform's report for the command's guild.
    pub open spec fn handled(
        before_pool: Self,
        after_pool: Self,
        payload: AudioCommandPayload,
        report: Seq<SlotStatus>,
        outcome: Outcome<H>,
    ) -> bool {
        match payload {
            AudioCommandPayload::Join(gid, cid) => {
                &&& after_pool.sessions() == before_pool.sessions()
                &&& match free_slot(report) {
                    Some(slot) => outcome matches Outcome::ConnectSlot { slot: s, guild, channel }
                        && s == slot && guild == gid && channel == cid,
                    None => outcome == Outcome::<H>::Reply(Err(AudioCommandError::BotUsedFull)),
                }
            },
            AudioCommandPayload::Remove(gid, _) => {
                &&& outcome matches Outcome::Leave { guild, slots, sessions }
                &&& guild == gid
                &&& Self::pool_cleared(before_pool, after_pool, report, slots@, sessions@)
            },
            AudioCommandPayload::Connect { gid, from_id, to_id } => match outcome {
                Outcome::Relay(plan) => Self::relay_set_up(
                    before_pool,
                    after_pool,
                    report,
                    from_id,
                    to_id,
                    Ok(plan),
                ),
                Outcome::Reply(Err(e)) => Self::relay_set_up(
                    before_pool,
                    after_pool,
                    report,
                    from_id,
                    to_id,
                    Err(e),
                ),
                _ => false,
            },
            AudioCommandPayload::Disconnect { gid, from_id, to_id } => match outcome {
                Outcome::Unrelay(released) => Self::relay_ended(
                    before_pool,
                    after_pool,
                    report,
                    from_id,
                    to_id,
                    Ok(released),
                ),
                Outcome::Reply(Err(e)) => Self::relay_ended(
                    before_pool,
                    after_pool,
                    report,
                    from_id,
                    to_id,
                    Err(e),
                ),
                _ => false,
            },
        }
    }

    /// Takes in one command together with the platform's report for the
    /// command's guild, and says what the host is to do.
    pub fn handle_command(&mut self, payload: AudioCommandPayload, report: &Vec<SlotStatus>) -> (outcome:
        Outcome<H>)
        requires
            old(self).wf(),
            report@.len() == old(self).sessions().len(),
        ensures
            final(self).wf(),
            Self::handled(*old(self), *final(self), payload, report@, outcome),
    {
        match payload {
            AudioCommandPayload::Join(gid, cid) => match self.join(report) {
                Ok(slot) => Outcome::ConnectSlot { slot, guild: gid, channel: cid },
                Err(e) => Outcome::Reply(Err(e)),
            },
            AudioCommandPayload::Remove(gid, _) => {
                let (slots, sessions) = self.remove(report);
                Outcome::Leave { guild: gid, slots, sessions }
            },
            AudioCommandPayload::Connect { gid, from_id, to_id } => match self.connect(
                report,
                from_id,
                to_id,
            ) {
                Ok(plan) => Outcome::Relay(plan),
                Err(e) => Outcome::Reply(Err(e)),
            },
            AudioCommandPayload::Disconnect { gid, from_id, to_id } => match self.disconnect(
                report,
                from_id,
                to_id,
            ) {
                Ok(released) => Outcome::Unrelay(released),
                Err(e) => Outcome::Reply(Err(e)),
            },
        }
    }
}

} // verus!
