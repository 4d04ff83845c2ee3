//! The relay session of one slot: which sources are speaking in the hosted
//! channel, and which outbound tracks replay them into other slots.

use crate::channel::{listener_count, open_channel, publish, subscribe_to};
use crate::keyed::{
    keys, leaving_out, lemma_keys_without, lemma_leaving_out_members, lemma_leaving_out_settles,
    lemma_without_key_members, lemma_without_key_settles, payloads, position, split_off_key,
    with_key, without_key,
};
use std::sync::Arc;
use vstd::prelude::*;

verus! {

/// The tracks that play into one slot: nothing where the slot is no relay
/// target, else one entry per track, keyed by the source it replays.
pub type Tracks<H> = Option<Seq<(u32, H)>>;

/// The model of a stored slot entry.
pub open spec fn slot_view<H>(slot: Option<Vec<(u32, H)>>) -> Tracks<H> {
    match slot {
        Some(tracks) => Some(tracks@),
        None => None,
    }
}

/// The handles of every track of a slot.
pub open spec fn handles_in<H>(slot: Tracks<H>) -> Seq<H> {
    match slot {
        Some(tracks) => payloads(tracks),
        None => Seq::empty(),
    }
}

/// A slot once `ssrc` has stopped: its tracks for that source are gone.
pub open spec fn stop_in_slot<H>(slot: Tracks<H>, ssrc: u32) -> Tracks<H> {
    match slot {
        Some(tracks) => Some(without_key(tracks, ssrc)),
        None => None,
    }
}

/// The handles a slot gives up when `ssrc` stops.
pub open spec fn released_in_slot<H>(slot: Tracks<H>, ssrc: u32) -> Seq<H> {
    match slot {
        Some(tracks) => payloads(with_key(tracks, ssrc)),
        None => Seq::empty(),
    }
}

/// All slots once `ssrc` has stopped.
pub open spec fn after_stop<H>(targets: Seq<Tracks<H>>, ssrc: u32) -> Seq<Tracks<H>> {
    targets.map_values(|slot: Tracks<H>| stop_in_slot(slot, ssrc))
}

/// The handles given up when `ssrc` stops: slot by slot, and within a slot in
/// the order in which the tracks were attached.
pub open spec fn released_by_stop<H>(targets: Seq<Tracks<H>>, ssrc: u32) -> Seq<H>
    decreases targets.len(),
{
    if targets.len() == 0 {
        Seq::empty()
    } else {
        released_by_stop(targets.drop_last(), ssrc) + released_in_slot(targets.last(), ssrc)
    }
}

/// All slots once `slot` has become a relay target with no track yet.
pub open spec fn after_connect<H>(targets: Seq<Tracks<H>>, slot: int) -> Seq<Tracks<H>> {
    targets.update(slot, Some(Seq::empty()))
}

/// All slots once `slot` is no relay target any more.
pub open spec fn after_disconnect<H>(targets: Seq<Tracks<H>>, slot: int) -> Seq<Tracks<H>> {
    targets.update(slot, None)
}

/// All slots once a track for `ssrc` has been attached to `slot`.
pub open spec fn after_attach<H>(targets: Seq<Tracks<H>>, slot: int, ssrc: u32, handle: H) -> Seq<
    Tracks<H>,
> {
    targets.update(slot, Some(targets[slot].unwrap().push((ssrc, handle))))
}

/// Whether a track for `ssrc` may be attached to `slot`: the slot is a relay
/// target and the source is speaking.
pub open spec fn attachable<H>(sources: Seq<u32>, targets: Seq<Tracks<H>>, slot: int, ssrc: u32) -> bool {
    &&& 0 <= slot < targets.len()
    &&& targets[slot].is_some()
    &&& sources.contains(ssrc)
}

/// Whether a new source gets a track into `slot`: the slot is a relay target
/// and holds a connection.
pub open spec fn wants_track<H>(targets: Seq<Tracks<H>>, connected: Seq<bool>, slot: int) -> bool {
    &&& 0 <= slot < targets.len()
    &&& targets[slot].is_some()
    &&& slot < connected.len()
    &&& connected[slot]
}

/// Every track replays a source that is speaking.
pub open spec fn tracks_follow_sources<H>(sources: Seq<u32>, targets: Seq<Tracks<H>>) -> bool {
    forall|slot: int, k: int|
        0 <= slot < targets.len() && targets[slot].is_some() && 0 <= k < targets[slot].unwrap().len()
            ==> sources.contains(#[trigger] targets[slot].unwrap()[k].0)
}

/// Strictly ascending.
pub open spec fn ascending(list: Seq<usize>) -> bool {
    forall|i: int, j: int| 0 <= i < j < list.len() ==> list[i] < list[j]
}

/// The handles of every track of every slot: slot by slot, and within a slot
/// in the order in which the tracks were attached.
pub open spec fn all_handles<H>(targets: Seq<Tracks<H>>) -> Seq<H>
    decreases targets.len(),
{
    if targets.len() == 0 {
        Seq::empty()
    } else {
        all_handles(targets.drop_last()) + handles_in(targets.last())
    }
}

/// Whether a frame is worth publishing: somebody has to listen.
pub fn worth_publishing(listeners: usize) -> (yes: bool)
    ensures
        yes == (listeners > 0),
{
    listeners != 0
}

/// Moves the payloads out of a keyed list.
fn into_payloads<T>(entries: Vec<(u32, T)>) -> (out: Vec<T>)
    ensures
        out@ == payloads(entries@),
{
    let ghost all = entries@;
    let mut rest = entries;
    let mut out: Vec<T> = Vec::new();
    while rest.len() > 0
        invariant
            out@.len() + rest@.len() == all.len(),
            forall|i: int| 0 <= i < out@.len() ==> out@[i] == all[i].1,
            forall|i: int| 0 <= i < rest@.len() ==> rest@[i] == all[out@.len() + i],
        decreases rest.len(),
    {
        let (_, payload) = rest.remove(0);
        out.push(payload);
    }
    assert(out@ =~= payloads(all));
    out
}

/// The relay session of the slot that hosts a channel.
#[derive(Debug)]
pub struct AudioTx<H> {
    txs: Vec<(u32, tokio::sync::broadcast::Sender<Arc<[u8]>>)>,
    reception_tracks: Vec<Option<Vec<(u32, H)>>>,
    buf_size: usize,
    channel_id: u64,
}

impl<H> AudioTx<H> {
    /// The channel depth is one that a channel can be opened with, no source
    /// is listed twice, and every track replays a source that is speaking.
    pub open spec fn wf(self) -> bool {
        &&& 0 < self.depth() <= usize::MAX / 2
        &&& self.sources().no_duplicates()
        &&& tracks_follow_sources(self.sources(), self.targets())
    }

    /// The sources that are speaking, in the order in which they started.
    pub closed spec fn sources(self) -> Seq<u32> {
        keys(self.txs@)
    }

    /// For each slot of the pool, the tracks that play into it.
    pub closed spec fn targets(self) -> Seq<Tracks<H>> {
        slots_view(self.reception_tracks@)
    }

    /// How many frames each source's channel keeps for a slow reader.
    pub closed spec fn depth(self) -> usize {
        self.buf_size
    }

    /// The channel this session is hosted in.
    pub closed spec fn channel(self) -> u64 {
        self.channel_id
    }

    /// A session for `channel_id` in a pool of `slots` slots: nobody speaks
    /// and no slot is a relay target.
    pub fn new(buf_size: usize, slots: usize, channel_id: u64) -> (made: Self)
        requires
            0 < buf_size <= usize::MAX / 2,
        ensures
            made.sources() == Seq::<u32>::empty(),
            made.targets() == Seq::new(slots as nat, |i: int| None::<Seq<(u32, H)>>),
            made.depth() == buf_size,
            made.channel() == channel_id,
            made.wf(),
    {
        let mut reception_tracks: Vec<Option<Vec<(u32, H)>>> = Vec::new();
        let mut i: usize = 0;
        while i < slots
            invariant
                i <= slots,
                reception_tracks@.len() == i,
                forall|k: int| 0 <= k < i ==> reception_tracks@[k].is_none(),
            decreases slots - i,
        {
            reception_tracks.push(None);
            i += 1;
        }
        let made = AudioTx { txs: Vec::new(), reception_tracks, buf_size, channel_id };
        assert(made.sources() =~= Seq::<u32>::empty());
        assert(made.targets() =~= Seq::new(slots as nat, |i: int| None::<Seq<(u32, H)>>));
        made
    }

    /// The channel this session is hosted in.
    pub fn channel_id(&self) -> (id: u64)
        ensures
            id == self.channel(),
    {
        self.channel_id
    }

    /// How many slots the session knows of.
    pub fn slots(&self) -> (count: usize)
        ensures
            count == self.targets().len(),
    {
        self.reception_tracks.len()
    }

    /// Whether `slot` is a relay target.
    pub fn is_target(&self, slot: usize) -> (yes: bool)
        ensures
            yes == (slot < self.targets().len() && self.targets()[slot as int].is_some()),
    {
        slot < self.reception_tracks.len() && self.reception_tracks[slot].is_some()
    }

    /// How many tracks play into `slot`; zero where it is no relay target.
    pub fn track_count(&self, slot: usize) -> (count: usize)
        ensures
            count == if slot < self.targets().len() {
                handles_in(self.targets()[slot as int]).len()
            } else {
                0
            },
    {
        if slot < self.reception_tracks.len() {
            match &self.reception_tracks[slot] {
                Some(tracks) => tracks.len(),
                None => 0,
            }
        } else {
            0
        }
    }

    /// The sources that are speaking, in the order in which they started.
    pub fn speaking(&self) -> (list: Vec<u32>)
        ensures
            list@ == self.sources(),
    {
        let mut list: Vec<u32> = Vec::new();
        let mut i: usize = 0;
        while i < self.txs.len()
            invariant
                i <= self.txs.len(),
                list@ == keys(self.txs@).take(i as int),
            decreases self.txs.len() - i,
        {
            list.push(self.txs[i].0);
            assert(keys(self.txs@).take(i + 1) =~= keys(self.txs@).take(i as int).push(
                self.txs@[i as int].0,
            ));
            i += 1;
        }
        assert(keys(self.txs@).take(i as int) =~= keys(self.txs@));
        list
    }

    /// Makes `connect_to` a relay target with no track yet. The tracks that
    /// played into it before, if any, are handed back for release. The caller
    /// then starts a track for every source in `sources()`.
    pub fn connect_to(&mut self, connect_to: usize) -> (released: Vec<H>)
        requires
            connect_to < old(self).targets().len(),
        ensures
            final(self).targets() == after_connect(old(self).targets(), connect_to as int),
            final(self).sources() == old(self).sources(),
            final(self).depth() == old(self).depth(),
            final(self).channel() == old(self).channel(),
            released@ == handles_in(old(self).targets()[connect_to as int]),
            old(self).wf() ==> final(self).wf(),
    {
        let before = self.reception_tracks.remove(connect_to);
        self.reception_tracks.insert(connect_to, Some(Vec::new()));
        assert(self.targets() =~= after_connect(old(self).targets(), connect_to as int));
        match before {
            Some(tracks) => into_payloads(tracks),
            None => Vec::new(),
        }
    }

    /// Ends the relay into `disconnect_to` and hands back the tracks that
    /// played into it, for release.
    pub fn disconnect_to(&mut self, disconnect_to: usize) -> (released: Vec<H>)
        requires
            disconnect_to < old(self).targets().len(),
        ensures
            final(self).targets() == after_disconnect(old(self).targets(), disconnect_to as int),
            final(self).sources() == old(self).sources(),
            final(self).depth() == old(self).depth(),
            final(self).channel() == old(self).channel(),
            released@ == handles_in(old(self).targets()[disconnect_to as int]),
            old(self).wf() ==> final(self).wf(),
    {
        let before = self.reception_tracks.remove(disconnect_to);
        self.reception_tracks.insert(disconnect_to, None);
        assert(self.targets() =~= after_disconnect(old(self).targets(), disconnect_to as int));
        match before {
            Some(tracks) => into_payloads(tracks),
            None => Vec::new(),
        }
    }
}

/// The model of the stored slot entries.
pub open spec fn slots_view<H>(stored: Seq<Option<Vec<(u32, H)>>>) -> Seq<Tracks<H>> {
    stored.map_values(|slot: Option<Vec<(u32, H)>>| slot_view(slot))
}

impl<H> AudioTx<H> {
    /// Records that `ssrc` has started to speak and opens its frame channel.
    /// Hands back the slots into which a track for it is to be started: the
    /// relay targets whose entry in `connected` says that the slot holds a
    /// connection, in ascending order. A source that is speaking already
    /// changes nothing and asks for no track.
    pub fn new_speaking_ssrc(&mut self, ssrc: u32, connected: &Vec<bool>) -> (plan: Vec<usize>)
        requires
            old(self).wf(),
        ensures
            final(self).wf(),
            final(self).targets() == old(self).targets(),
            final(self).depth() == old(self).depth(),
            final(self).channel() == old(self).channel(),
            old(self).sources().contains(ssrc) ==> final(self).sources() == old(self).sources()
                && plan@.len() == 0,
            !old(self).sources().contains(ssrc) ==> final(self).sources() == old(self).sources().push(ssrc) && ascending(plan@) && forall|slot: usize|
                plan@.contains(slot) <==> wants_track(old(self).targets(), connected@, slot as int),
    {
        if position(&self.txs, ssrc).is_some() {
            return Vec::new();
        }
        let mut plan: Vec<usize> = Vec::new();
        let mut slot: usize = 0;
        while slot < self.reception_tracks.len()
            invariant
                slot <= self.reception_tracks.len(),
                ascending(plan@),
                forall|k: int| 0 <= k < plan@.len() ==> plan@[k] < slot,
                forall|s: usize|
                    plan@.contains(s) <==> s < slot && wants_track(
                        self.targets(),
                        connected@,
                        s as int,
                    ),
            decreases self.reception_tracks.len() - slot,
        {
            if self.reception_tracks[slot].is_some() && slot < connected.len() && connected[slot] {
                let ghost before = plan@;
                plan.push(slot);
                assert(plan@[before.len() as int] == slot);
                assert forall|s: usize| plan@.contains(s) <==> s < slot + 1 && wants_track(
                    self.targets(),
                    connected@,
                    s as int,
                ) by {
                    if plan@.contains(s) {
                        let k = choose|k: int| 0 <= k < plan@.len() && plan@[k] == s;
                        if k < before.len() {
                            assert(before[k] == s);
                            assert(before.contains(s));
                        }
                    }
                    if s < slot && wants_track(self.targets(), connected@, s as int) {
                        assert(before.contains(s));
                        let k = choose|k: int| 0 <= k < before.len() && before[k] == s;
                        assert(plan@[k] == s);
                    }
                }
            }
            slot += 1;
        }
        let tx = open_channel(self.buf_size);
        self.txs.push((ssrc, tx));
        assert(self.sources() =~= old(self).sources().push(ssrc));
        proof {
            let before = old(self).sources();
            let after = self.sources();
            assert forall|x: u32| before.contains(x) implies after.contains(x) by {
                let i = choose|i: int| 0 <= i < before.len() && before[i] == x;
                assert(after[i] == x);
            }
            assert forall|i: int, j: int| 0 <= i < after.len() && 0 <= j < after.len() && i != j implies after[i]
                != after[j] by {
                if i < before.len() {
                    assert(before.contains(before[i]));
                }
                if j < before.len() {
                    assert(before.contains(before[j]));
                }
            }
        }
        plan
    }

    /// Records that `ssrc` has stopped speaking: its frame channel is closed
    /// and every track that replayed it, in whatever slot, is taken out and
    /// handed back for release. A source that is not speaking changes nothing.
    pub fn delete_speaking_ssrc(&mut self, ssrc: u32) -> (released: Vec<H>)
        ensures
            final(self).sources() == leaving_out(old(self).sources(), ssrc),
            final(self).targets() == after_stop(old(self).targets(), ssrc),
            released@ == released_by_stop(old(self).targets(), ssrc),
            final(self).depth() == old(self).depth(),
            final(self).channel() == old(self).channel(),
            old(self).wf() ==> final(self).wf(),
    {
        let mut released: Vec<H> = Vec::new();
        let mut slots: Vec<Option<Vec<(u32, H)>>> = Vec::new();
        std::mem::swap(&mut slots, &mut self.reception_tracks);
        let ghost all = slots_view(slots@);
        let ghost mut done: Seq<Tracks<H>> = Seq::empty();
        assert(slots_view(self.reception_tracks@) =~= after_stop(done, ssrc));
        while slots.len() > 0
            invariant
                all == done + slots_view(slots@),
                slots_view(self.reception_tracks@) == after_stop(done, ssrc),
                released@ == released_by_stop(done, ssrc),
                self.txs == old(self).txs,
                self.buf_size == old(self).buf_size,
                self.channel_id == old(self).channel_id,
            decreases slots.len(),
        {
            let ghost head = slot_view(slots@[0]);
            let ghost stored = self.reception_tracks@;
            let ghost rest = slots@;
            let slot = slots.remove(0);
            match slot {
                Some(tracks) => {
                    let kept = split_off_key(tracks, ssrc, &mut released);
                    self.reception_tracks.push(Some(kept));
                },
                None => {
                    self.reception_tracks.push(None);
                    assert(released@ + Seq::<H>::empty() =~= released@);
                },
            }
            proof {
                assert(done.push(head).drop_last() =~= done);
                assert(after_stop(done.push(head), ssrc) =~= after_stop(done, ssrc).push(
                    stop_in_slot(head, ssrc),
                ));
                assert(slots_view(self.reception_tracks@) =~= slots_view(stored).push(
                    stop_in_slot(head, ssrc),
                ));
                assert(done.push(head) + slots_view(slots@) =~= done + slots_view(rest));
                done = done.push(head);
            }
        }
        assert(all =~= done);
        let mut txs: Vec<(u32, tokio::sync::broadcast::Sender<Arc<[u8]>>)> = Vec::new();
        std::mem::swap(&mut txs, &mut self.txs);
        let mut closed: Vec<tokio::sync::broadcast::Sender<Arc<[u8]>>> = Vec::new();
        proof {
            lemma_keys_without(txs@, ssrc);
        }
        self.txs = split_off_key(txs, ssrc, &mut closed);
        proof {
            if old(self).wf() {
                let before = old(self).targets();
                let after = self.targets();
                lemma_leaving_out_members(old(self).sources(), ssrc);
                assert forall|slot: int, k: int|
                    0 <= slot < after.len() && after[slot].is_some() && 0 <= k < after[slot].unwrap().len() implies self.sources().contains(
                    #[trigger] after[slot].unwrap()[k].0,
                ) by {
                    let tracks = before[slot].unwrap();
                    lemma_without_key_members(tracks, ssrc);
                    let kept = without_key(tracks, ssrc);
                    assert(after[slot].unwrap() == kept);
                    let i = choose|i: int| 0 <= i < keys(tracks).len() && keys(tracks)[i] == kept[k].0;
                    assert(tracks[i].0 == kept[k].0);
                }
            }
        }
        released
    }

    /// Stores the handle of a track that was started for `ssrc` in `slot`.
    /// Where the slot is no relay target any more, or the source has stopped
    /// in the meantime, nothing is stored and the handle comes back for
    /// release.
    pub fn attach_track(&mut self, slot: usize, ssrc: u32, handle: H) -> (refused: Option<H>)
        ensures
            final(self).sources() == old(self).sources(),
            final(self).depth() == old(self).depth(),
            final(self).channel() == old(self).channel(),
            attachable(old(self).sources(), old(self).targets(), slot as int, ssrc) ==> refused.is_none()
                && final(self).targets() == after_attach(
                old(self).targets(),
                slot as int,
                ssrc,
                handle,
            ),
            !attachable(old(self).sources(), old(self).targets(), slot as int, ssrc) ==> refused
                == Some(handle) && final(self).targets() == old(self).targets(),
            old(self).wf() ==> final(self).wf(),
    {
        if slot >= self.reception_tracks.len() || position(&self.txs, ssrc).is_none() {
            return Some(handle);
        }
        match self.reception_tracks.remove(slot) {
            Some(tracks) => {
                let mut tracks = tracks;
                tracks.push((ssrc, handle));
                self.reception_tracks.insert(slot, Some(tracks));
                assert(self.targets() =~= after_attach(
                    old(self).targets(),
                    slot as int,
                    ssrc,
                    handle,
                ));
                None
            },
            None => {
                self.reception_tracks.insert(slot, None);
                assert(self.targets() =~= old(self).targets());
                Some(handle)
            },
        }
    }

    /// Ends the session: every frame channel is closed, and the handles of
    /// all tracks, in whatever slot, are handed back for release.
    pub fn close(self) -> (released: Vec<H>)
        ensures
            released@ == all_handles(self.targets()),
    {
        let ghost all = self.targets();
        let mut slots = self.reception_tracks;
        let mut released: Vec<H> = Vec::new();
        let ghost mut done: Seq<Tracks<H>> = Seq::empty();
        while slots.len() > 0
            invariant
                all == done + slots_view(slots@),
                released@ == all_handles(done),
            decreases slots.len(),
        {
            let ghost head = slot_view(slots@[0]);
            let ghost rest = slots@;
            let slot = slots.remove(0);
            match slot {
                Some(tracks) => {
                    let mut handles = into_payloads(tracks);
                    released.append(&mut handles);
                },
                None => {
                    assert(released@ + Seq::<H>::empty() =~= released@);
                },
            }
            proof {
                assert(done.push(head).drop_last() =~= done);
                assert(done.push(head) + slots_view(slots@) =~= done + slots_view(rest));
                done = done.push(head);
            }
        }
        assert(all =~= done);
        released
    }

    /// Publishes one frame of `ssrc` to the tracks that replay it. Nothing is
    /// published where the source is not speaking or nobody listens; a frame
    /// that a slow listener has no room for displaces the oldest one. Tells
    /// whether the frame was queued for at least one listener.
    pub fn send(&self, voice: &Vec<u8>, ssrc: u32) -> (queued: bool)
        ensures
            queued ==> self.sources().contains(ssrc),
    {
        match position(&self.txs, ssrc) {
            Some(i) => {
                assert(keys(self.txs@)[i as int] == ssrc);
                let tx = &self.txs[i].1;
                if worth_publishing(listener_count(tx)) {
                    publish(tx, voice).is_some()
                } else {
                    false
                }
            },
            None => false,
        }
    }

    /// A new subscription to the frames of `ssrc`, for one outbound track;
    /// nothing where the source is not speaking.
    pub fn subscribe(&self, ssrc: u32) -> (rx: Option<tokio::sync::broadcast::Receiver<Arc<[u8]>>>)
        ensures
            rx.is_some() <==> self.sources().contains(ssrc),
    {
        match position(&self.txs, ssrc) {
            Some(i) => {
                assert(keys(self.txs@)[i as int] == ssrc);
                Some(subscribe_to(&self.txs[i].1))
            },
            None => None,
        }
    }
}

/// Stopping a source takes it off the list of speakers and releases every
/// track that replays it, in every slot: afterwards no slot holds a track
/// for it. Stopping it again changes nothing and releases nothing.
pub proof fn stop_releases_all_and_settles<H>(sources: Seq<u32>, targets: Seq<Tracks<H>>, ssrc: u32)
    ensures
        !leaving_out(sources, ssrc).contains(ssrc),
        leaving_out(leaving_out(sources, ssrc), ssrc) == leaving_out(sources, ssrc),
        forall|slot: int|
            0 <= slot < targets.len() && (#[trigger] after_stop(targets, ssrc)[slot]).is_some() ==> !keys(
                after_stop(targets, ssrc)[slot].unwrap(),
            ).contains(ssrc),
        after_stop(after_stop(targets, ssrc), ssrc) == after_stop(targets, ssrc),
        released_by_stop(after_stop(targets, ssrc), ssrc) == Seq::<H>::empty(),
    decreases targets.len(),
{
    lemma_leaving_out_settles(sources, ssrc);
    let once = after_stop(targets, ssrc);
    assert forall|slot: int|
        0 <= slot < targets.len() && (#[trigger] once[slot]).is_some() implies !keys(
            once[slot].unwrap(),
        ).contains(ssrc) && stop_in_slot(once[slot], ssrc) == once[slot] && released_in_slot(
            once[slot],
            ssrc,
        ) == Seq::<H>::empty() by {
        if targets[slot].is_some() {
            lemma_without_key_settles(targets[slot].unwrap(), ssrc);
            assert(payloads(Seq::<(u32, H)>::empty()) =~= Seq::<H>::empty());
        }
    }
    assert(after_stop(once, ssrc) =~= once);
    if targets.len() > 0 {
        stop_releases_all_and_settles(sources, targets.drop_last(), ssrc);
        assert(once.drop_last() =~= after_stop(targets.drop_last(), ssrc));
        let last = targets.len() - 1;
        if targets[last].is_some() {
            lemma_without_key_settles(targets[last].unwrap(), ssrc);
            assert(payloads(Seq::<(u32, H)>::empty()) =~= Seq::<H>::empty());
        }
        assert(released_in_slot(once.last(), ssrc) =~= Seq::<H>::empty());
        assert(released_by_stop(once, ssrc) =~= Seq::<H>::empty());
    }
}

/// Setting up a relay into a slot and ending it again leaves the slot
/// without tracks and no relay target, and every other slot as it was. Where
/// the slot was no relay target before, all slots are as they were.
pub proof fn relay_round_trip<H>(targets: Seq<Tracks<H>>, slot: int)
    requires
        0 <= slot < targets.len(),
    ensures
        handles_in(after_connect(targets, slot)[slot]) == Seq::<H>::empty(),
        after_disconnect(after_connect(targets, slot), slot) == after_disconnect(targets, slot),
        after_disconnect(after_connect(targets, slot), slot)[slot].is_none(),
        forall|other: int|
            0 <= other < targets.len() && other != slot ==> after_disconnect(
                after_connect(targets, slot),
                slot,
            )[other] == targets[other],
        targets[slot].is_none() ==> after_disconnect(after_connect(targets, slot), slot) == targets,
{
    assert(payloads(Seq::<(u32, H)>::empty()) =~= Seq::<H>::empty());
    assert(after_disconnect(after_connect(targets, slot), slot) =~= after_disconnect(targets, slot));
    if targets[slot].is_none() {
        assert(after_disconnect(targets, slot) =~= targets);
    }
}

/// Once a slot has become a relay target, a track can be attached to it for
/// every source that is speaking at that moment, not only for those that
/// start later; and attaching one puts exactly that track into the slot.
pub proof fn relay_admits_every_speaker<H>(sources: Seq<u32>, targets: Seq<Tracks<H>>, slot: int, ssrc: u32, handle: H)
    requires
        0 <= slot < targets.len(),
        sources.contains(ssrc),
    ensures
        attachable(sources, after_connect(targets, slot), slot, ssrc),
        handles_in(after_attach(after_connect(targets, slot), slot, ssrc, handle)[slot]) == seq![handle],
{
    assert(payloads(Seq::<(u32, H)>::empty().push((ssrc, handle))) =~= seq![handle]);
}

} // verus!
