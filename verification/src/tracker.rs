//! Speaker tracking for one connection: which participant a source belongs
//! to, who started and who stopped speaking between two voice ticks, and
//! with which divisor a source's frames are scaled.

use crate::keyed::{first_at, keys, position};
use crate::volume::{divisor_or_unit, stored, Divisor};
use vstd::prelude::*;

verus! {

/// An event of one voice connection.
#[derive(Debug)]
#[allow(inconsistent_fields)]
pub enum VoiceEvent {
    /// A source was announced, with the participant it belongs to where the
    /// platform named one.
    SpeakingStateUpdate { ssrc: u32, user_id: Option<u64> },
    /// A participant left the call.
    ClientDisconnect { user_id: u64 },
    /// A batch of decoded audio arrived; `speaking` lists the sources in it.
    VoiceTick { speaking: Vec<u32> },
    /// The connection's driver disconnected.
    DriverDisconnect,
    /// Any other event.
    Other,
}

/// What the host does after an event was taken in.
#[derive(Debug)]
pub enum Reaction {
    /// Nothing.
    Nothing,
    /// Start a fan-out for each source in `started`, end it for each in
    /// `stopped`, and only then forward the frames of the tick.
    Speakers { started: Vec<u32>, stopped: Vec<u32> },
    /// Release every event registration of the connection.
    ReleaseEvents,
}

/// The entries that do not belong to `user_id`, in order.
pub open spec fn without_participant(entries: Seq<(u32, u64)>, user_id: u64) -> Seq<(u32, u64)> {
    entries.filter(|e: (u32, u64)| e.1 != user_id)
}

/// The participant of the first entry for `ssrc`, if there is one.
pub open spec fn resolves_to(entries: Seq<(u32, u64)>, ssrc: u32, found: Option<u64>) -> bool {
    match found {
        Some(user_id) => exists|i: int| #[trigger]
            first_at(keys(entries), ssrc, i) && entries[i].1 == user_id,
        None => !keys(entries).contains(ssrc),
    }
}

/// `diff` holds, once each, what is in `list` and not in `other`.
pub open spec fn is_difference(diff: Seq<u32>, list: Seq<u32>, other: Seq<u32>) -> bool {
    &&& diff.no_duplicates()
    &&& forall|s: u32| diff.contains(s) <==> list.contains(s) && !other.contains(s)
}

/// Whether `list` holds `wanted`.
pub fn holds(list: &Vec<u32>, wanted: u32) -> (found: bool)
    ensures
        found == list@.contains(wanted),
{
    let mut i: usize = 0;
    while i < list.len()
        invariant
            i <= list.len(),
            forall|j: int| 0 <= j < i ==> list@[j] != wanted,
        decreases list.len() - i,
    {
        if list[i] == wanted {
            return true;
        }
        i += 1;
    }
    false
}

/// What is in `list` and not in `other`, once each, in the order of `list`.
pub fn difference(list: &Vec<u32>, other: &Vec<u32>) -> (diff: Vec<u32>)
    ensures
        is_difference(diff@, list@, other@),
{
    let mut diff: Vec<u32> = Vec::new();
    let mut i: usize = 0;
    while i < list.len()
        invariant
            i <= list.len(),
            diff@.no_duplicates(),
            forall|s: u32| diff@.contains(s) <==> list@.take(i as int).contains(s) && !other@.contains(s),
        decreases list.len() - i,
    {
        let s = list[i];
        let ghost seen = list@.take(i as int);
        let ghost before = diff@;
        assert(list@.take(i + 1) =~= seen.push(s));
        let fresh = !holds(other, s) && !holds(&diff, s);
        if fresh {
            diff.push(s);
        }
        assert forall|x: u32| diff@.contains(x) <==> seen.push(s).contains(x) && !other@.contains(
            x,
        ) by {
            if seen.push(s).contains(x) {
                let k = choose|k: int| 0 <= k < seen.push(s).len() && seen.push(s)[k] == x;
                if k < seen.len() {
                    assert(seen[k] == x);
                    assert(seen.contains(x));
                }
            }
            if seen.contains(x) {
                let k = choose|k: int| 0 <= k < seen.len() && seen[k] == x;
                assert(seen.push(s)[k] == x);
            }
            assert(seen.push(s)[seen.len() as int] == s);
            if fresh {
                assert(diff@[before.len() as int] == s);
                if before.contains(x) {
                    let k = choose|k: int| 0 <= k < before.len() && before[k] == x;
                    assert(diff@[k] == x);
                }
                if diff@.contains(x) {
                    let k = choose|k: int| 0 <= k < diff@.len() && diff@[k] == x;
                    if k < before.len() {
                        assert(before[k] == x);
                    }
                }
            }
        }
        i += 1;
    }
    assert(list@.take(i as int) =~= list@);
    diff
}

/// The speaker tracker of one connection.
#[derive(Debug)]
pub struct VoiceEventHandler {
    ssrc_map: Vec<(u32, u64)>,
    speakers: Vec<u32>,
}

impl VoiceEventHandler {
    /// The announced sources with their participants, oldest first. A source
    /// or a participant may occur more than once.
    pub closed spec fn participants(self) -> Seq<(u32, u64)> {
        self.ssrc_map@
    }

    /// The sources that spoke in the last voice tick.
    pub closed spec fn speakers(self) -> Seq<u32> {
        self.speakers@
    }

    /// A tracker that knows no source and no speaker.
    pub fn new() -> (made: Self)
        ensures
            made.participants() == Seq::<(u32, u64)>::empty(),
            made.speakers() == Seq::<u32>::empty(),
    {
        VoiceEventHandler { ssrc_map: Vec::new(), speakers: Vec::new() }
    }

    /// Takes in an announcement: with a participant it is appended, without
    /// one it is passed over.
    pub fn on_speaking_update(&mut self, ssrc: u32, user_id: Option<u64>)
        ensures
            final(self).speakers() == old(self).speakers(),
            final(self).participants() == match user_id {
                Some(id) => old(self).participants().push((ssrc, id)),
                None => old(self).participants(),
            },
    {
        if let Some(id) = user_id {
            self.ssrc_map.push((ssrc, id));
        }
    }

    /// Forgets every source of a participant who left.
    pub fn on_client_disconnect(&mut self, user_id: u64)
        ensures
            final(self).speakers() == old(self).speakers(),
            final(self).participants() == without_participant(old(self).participants(), user_id),
    {
        let mut kept: Vec<(u32, u64)> = Vec::new();
        let mut i: usize = 0;
        proof {
            reveal(Seq::filter);
            assert(self.ssrc_map@.take(0) =~= Seq::<(u32, u64)>::empty());
        }
        while i < self.ssrc_map.len()
            invariant
                i <= self.ssrc_map.len(),
                self.ssrc_map == old(self).ssrc_map,
                self.speakers == old(self).speakers,
                kept@ == without_participant(self.ssrc_map@.take(i as int), user_id),
            decreases self.ssrc_map.len() - i,
        {
            let entry = self.ssrc_map[i];
            proof {
                reveal(Seq::filter);
                assert(self.ssrc_map@.take(i + 1).drop_last() =~= self.ssrc_map@.take(i as int));
            }
            if entry.1 != user_id {
                kept.push(entry);
            }
            i += 1;
        }
        assert(self.ssrc_map@.take(i as int) =~= self.ssrc_map@);
        self.ssrc_map = kept;
    }

    /// The participant a source belongs to: that of its oldest announcement.
    pub fn participant_of(&self, ssrc: u32) -> (found: Option<u64>)
        ensures
            resolves_to(self.participants(), ssrc, found),
    {
        match position(&self.ssrc_map, ssrc) {
            Some(i) => {
                assert(first_at(keys(self.ssrc_map@), ssrc, i as int));
                Some(self.ssrc_map[i].1)
            },
            None => None,
        }
    }

    /// Compares the sources of a voice tick with those of the tick before:
    /// `started` are the ones that are new, `stopped` the ones that are gone.
    /// The sources of this tick are remembered for the next.
    pub fn on_voice_tick(&mut self, speaking: &Vec<u32>) -> (changes: (Vec<u32>, Vec<u32>))
        ensures
            is_difference(changes.0@, speaking@, old(self).speakers()),
            is_difference(changes.1@, old(self).speakers(), speaking@),
            is_difference(final(self).speakers(), speaking@, Seq::<u32>::empty()),
            final(self).participants() == old(self).participants(),
    {
        let started = difference(speaking, &self.speakers);
        let stopped = difference(&self.speakers, speaking);
        let nobody: Vec<u32> = Vec::new();
        self.speakers = difference(speaking, &nobody);
        (started, stopped)
    }

    /// The divisor for the frames of `ssrc`: the one stored for the
    /// participant the source belongs to, and 1 where the source belongs to
    /// nobody known or nothing is stored for the participant.
    pub fn volume_of(&self, volumes: &dashmap::DashMap<u64, Divisor>, ssrc: u32) -> (divisor: Divisor)
        ensures
            !keys(self.participants()).contains(ssrc) ==> divisor.amount() == 1,
    {
        match self.participant_of(ssrc) {
            Some(user_id) => divisor_or_unit(stored(volumes, user_id)),
            None => Divisor::unit(),
        }
    }

    /// Takes in one event of the connection and says what the host is to do.
    pub fn act(&mut self, event: &VoiceEvent) -> (reaction: Reaction)
        ensures
            match *event {
                VoiceEvent::SpeakingStateUpdate { ssrc, user_id } => {
                    &&& reaction == Reaction::Nothing
                    &&& final(self).speakers() == old(self).speakers()
                    &&& final(self).participants() == match user_id {
                        Some(id) => old(self).participants().push((ssrc, id)),
                        None => old(self).participants(),
                    }
                },
                VoiceEvent::ClientDisconnect { user_id } => {
                    &&& reaction == Reaction::Nothing
                    &&& final(self).speakers() == old(self).speakers()
                    &&& final(self).participants() == without_participant(
                        old(self).participants(),
                        user_id,
                    )
                },
                VoiceEvent::VoiceTick { speaking } => {
                    &&& reaction matches Reaction::Speakers { started, stopped }
                    &&& is_difference(started@, speaking@, old(self).speakers())
                    &&& is_difference(stopped@, old(self).speakers(), speaking@)
                    &&& is_difference(final(self).speakers(), speaking@, Seq::<u32>::empty())
                    &&& final(self).participants() == old(self).participants()
                },
                VoiceEvent::DriverDisconnect => {
                    &&& reaction == Reaction::ReleaseEvents
                    &&& *final(self) == *old(self)
                },
                VoiceEvent::Other => {
                    &&& reaction == Reaction::Nothing
                    &&& *final(self) == *old(self)
                },
            },
    {
        match event {
            VoiceEvent::SpeakingStateUpdate { ssrc, user_id } => {
                self.on_speaking_update(*ssrc, *user_id);
                Reaction::Nothing
            },
            VoiceEvent::ClientDisconnect { user_id } => {
                self.on_client_disconnect(*user_id);
                Reaction::Nothing
            },
            VoiceEvent::VoiceTick { speaking } => {
                let (started, stopped) = self.on_voice_tick(speaking);
                Reaction::Speakers { started, stopped }
            },
            VoiceEvent::DriverDisconnect => Reaction::ReleaseEvents,
            VoiceEvent::Other => Reaction::Nothing,
        }
    }
}

/// Once a participant has left, a source that was announced for nobody else
/// belongs to nobody, so its frames are scaled with the divisor 1.
pub proof fn departed_source_is_unknown(entries: Seq<(u32, u64)>, user_id: u64, ssrc: u32)
    requires
        forall|i: int| 0 <= i < entries.len() && entries[i].0 == ssrc ==> entries[i].1 == user_id,
    ensures
        resolves_to(without_participant(entries, user_id), ssrc, None),
    decreases entries.len(),
{
    reveal(Seq::filter);
    if entries.len() > 0 {
        let front = entries.drop_last();
        let last = entries.last();
        departed_source_is_unknown(front, user_id, ssrc);
        let inner = without_participant(front, user_id);
        let out = without_participant(entries, user_id);
        if last.1 != user_id {
            assert(out =~= inner.push(last));
            assert(entries[entries.len() - 1] == last);
            assert forall|i: int| 0 <= i < keys(out).len() implies keys(out)[i] != ssrc by {
                if i < inner.len() {
                    assert(keys(inner)[i] == keys(out)[i]);
                    assert(keys(inner).contains(keys(out)[i]));
                }
            }
        }
    }
}

} // verus!
