use voice_relay::channel::Polled;
use voice_relay::error::AudioCommandError;
use voice_relay::pool::{AudioCommandPayload, AudioServiceHandler, Outcome};
use voice_relay::report::{
    get_songbird_index_by_channel_id, occupied_slots, select_free_slot, SlotStatus,
};
use voice_relay::session::AudioTx;
use voice_relay::source::{AudioRx, Refill};

const C1: u64 = 101;
const C2: u64 = 102;
const C3: u64 = 103;

fn joined_pair() -> (AudioServiceHandler<u32>, Vec<SlotStatus>) {
    let mut pool: AudioServiceHandler<u32> = AudioServiceHandler::new(2);
    let mut report = vec![SlotStatus::Absent, SlotStatus::Absent];
    let first = pool.join(&report).unwrap();
    assert_eq!(first, 0);
    assert!(pool.finish_join(first, C1, true).unwrap().is_none());
    report[first] = SlotStatus::InChannel(C1);
    let second = pool.join(&report).unwrap();
    assert_eq!(second, 1);
    assert!(pool.finish_join(second, C2, true).unwrap().is_none());
    report[second] = SlotStatus::InChannel(C2);
    (pool, report)
}

#[test]
fn pool_of_two_relays_one_speaker() {
    let (mut pool, report) = joined_pair();
    assert_eq!(pool.join(&report), Err(AudioCommandError::BotUsedFull));
    assert!(pool.has_session(0) && pool.has_session(1));

    let plan = pool.connect(&report, C1, C2).unwrap();
    assert_eq!((plan.from, plan.to), (0, 1));
    assert!(plan.sources.is_empty());
    assert!(plan.released.is_empty());

    let connected = vec![true, true];
    let targets = pool.new_speaking_ssrc(0, 42, &connected);
    assert_eq!(targets, vec![1]);
    assert!(pool.subscribe(0, 42).is_some());
    assert_eq!(pool.attach_track(0, 1, 42, 7001), None);
    assert_eq!(pool.track_count(0, 1), 1);
    assert_eq!(pool.track_count(0, 0), 0);

    assert_eq!(pool.disconnect(&report, C1, C2).unwrap(), vec![7001]);
    assert_eq!(pool.track_count(0, 1), 0);

    assert!(pool.delete_speaking_ssrc(0, 42).is_empty());
    assert!(pool.new_speaking_ssrc(0, 42, &connected).is_empty());
    assert_eq!(pool.track_count(0, 1), 0);
    assert_eq!(pool.attach_track(0, 1, 42, 7002), Some(7002));
}

#[test]
fn join_takes_the_first_free_slot() {
    let pool: AudioServiceHandler<u32> = AudioServiceHandler::new(3);
    assert_eq!(pool.size(), 3);
    let report = vec![SlotStatus::Idle, SlotStatus::Absent, SlotStatus::Absent];
    assert_eq!(pool.join(&report), Ok(1));
    assert_eq!(select_free_slot(&report), Some(1));
    let full = vec![SlotStatus::InChannel(C1), SlotStatus::Idle, SlotStatus::InChannel(C2)];
    assert_eq!(pool.join(&full), Err(AudioCommandError::BotUsedFull));
    assert_eq!(select_free_slot(&full), None);
    assert_eq!(select_free_slot(&vec![]), None);
}

#[test]
fn refused_join_leaves_the_sessions_alone() {
    let (mut pool, report) = joined_pair();
    pool.connect(&report, C1, C2).unwrap();
    pool.new_speaking_ssrc(0, 42, &vec![true, true]);
    pool.attach_track(0, 1, 42, 9);
    let outcome = pool.handle_command(AudioCommandPayload::Join(1, C3), &report);
    assert!(matches!(outcome, Outcome::Reply(Err(AudioCommandError::BotUsedFull))));
    assert!(pool.has_session(0) && pool.has_session(1));
    assert_eq!(pool.track_count(0, 1), 1);
    assert!(pool.subscribe(0, 42).is_some());
}

#[test]
fn failed_platform_join_is_an_unknown_error() {
    let mut pool: AudioServiceHandler<u32> = AudioServiceHandler::new(1);
    let done = pool.finish_join(0, C1, false);
    assert!(matches!(done, Err(AudioCommandError::UnknownError)));
    assert!(!pool.has_session(0));
}

#[test]
fn join_replaces_the_session_of_the_slot() {
    let mut pool: AudioServiceHandler<u32> = AudioServiceHandler::new(1);
    assert!(pool.finish_join(0, C1, true).unwrap().is_none());
    pool.new_speaking_ssrc(0, 42, &vec![true]);
    let before = pool.finish_join(0, C2, true).unwrap().unwrap();
    assert_eq!(before.channel_id(), C1);
    assert_eq!(before.speaking(), vec![42]);
    assert!(pool.subscribe(0, 42).is_none());
}

#[test]
fn relay_starts_tracks_for_those_already_speaking() {
    let (mut pool, report) = joined_pair();
    let connected = vec![true, true];
    assert!(pool.new_speaking_ssrc(0, 42, &connected).is_empty());
    assert!(pool.new_speaking_ssrc(0, 43, &connected).is_empty());
    let plan = pool.connect(&report, C1, C2).unwrap();
    assert_eq!(plan.sources, vec![42, 43]);
    assert_eq!(plan.to, 1);
    for (n, ssrc) in plan.sources.iter().enumerate() {
        assert!(pool.subscribe(plan.from, *ssrc).is_some());
        assert_eq!(pool.attach_track(plan.from, plan.to, *ssrc, n as u32), None);
    }
    assert_eq!(pool.track_count(0, 1), 2);
}

#[test]
fn stopping_a_source_releases_its_tracks_everywhere_and_only_once() {
    let mut session: AudioTx<u32> = AudioTx::new(5, 4, C1);
    assert_eq!(session.slots(), 4);
    assert!(session.connect_to(1).is_empty());
    assert!(session.connect_to(3).is_empty());
    let connected = vec![true, true, true, true];
    assert_eq!(session.new_speaking_ssrc(42, &connected), vec![1, 3]);
    assert_eq!(session.new_speaking_ssrc(43, &connected), vec![1, 3]);
    assert_eq!(session.attach_track(1, 42, 10), None);
    assert_eq!(session.attach_track(1, 43, 11), None);
    assert_eq!(session.attach_track(3, 42, 12), None);
    assert_eq!(session.attach_track(3, 43, 13), None);
    assert_eq!(session.delete_speaking_ssrc(42), vec![10, 12]);
    assert_eq!(session.speaking(), vec![43]);
    assert_eq!(session.track_count(1), 1);
    assert_eq!(session.track_count(3), 1);
    assert!(session.delete_speaking_ssrc(42).is_empty());
    assert_eq!(session.speaking(), vec![43]);
    assert_eq!(session.track_count(1), 1);
    assert_eq!(session.delete_speaking_ssrc(43), vec![11, 13]);
    assert!(session.speaking().is_empty());
}

#[test]
fn new_source_gets_tracks_only_in_connected_targets() {
    let mut session: AudioTx<u32> = AudioTx::new(5, 3, C1);
    session.connect_to(0);
    session.connect_to(2);
    assert_eq!(session.new_speaking_ssrc(1, &vec![false, true, true]), vec![2]);
    assert_eq!(session.new_speaking_ssrc(2, &vec![true]), vec![0]);
    assert!(session.new_speaking_ssrc(2, &vec![true, true, true]).is_empty());
    assert_eq!(session.speaking(), vec![1, 2]);
}

#[test]
fn track_is_refused_outside_a_live_relay() {
    let mut session: AudioTx<u32> = AudioTx::new(5, 2, C1);
    session.new_speaking_ssrc(42, &vec![true, true]);
    assert_eq!(session.attach_track(1, 42, 5), Some(5));
    assert_eq!(session.attach_track(9, 42, 5), Some(5));
    session.connect_to(1);
    assert_eq!(session.attach_track(1, 77, 5), Some(5));
    assert_eq!(session.attach_track(1, 42, 5), None);
    assert!(session.is_target(1));
    assert!(!session.is_target(0));
    assert!(!session.is_target(2));
}

#[test]
fn relay_between_one_slot_and_itself_is_refused() {
    let (mut pool, report) = joined_pair();
    assert!(matches!(pool.connect(&report, C1, C1), Err(AudioCommandError::ChannelNotFound)));
    assert!(matches!(pool.disconnect(&report, C2, C2), Err(AudioCommandError::ChannelNotFound)));
    assert_eq!(pool.new_speaking_ssrc(0, 42, &vec![true, true]), Vec::<usize>::new());
}

#[test]
fn relay_to_an_unknown_channel_is_refused() {
    let (mut pool, report) = joined_pair();
    assert!(matches!(pool.connect(&report, C1, C3), Err(AudioCommandError::ChannelNotFound)));
    assert!(matches!(pool.connect(&report, C3, C2), Err(AudioCommandError::ChannelNotFound)));
    assert!(matches!(pool.disconnect(&report, C3, C2), Err(AudioCommandError::ChannelNotFound)));
}

#[test]
fn relay_from_a_slot_without_session_is_refused() {
    let mut pool: AudioServiceHandler<u32> = AudioServiceHandler::new(2);
    let report = vec![SlotStatus::InChannel(C1), SlotStatus::InChannel(C2)];
    assert!(matches!(pool.connect(&report, C1, C2), Err(AudioCommandError::AudioTxNotFound)));
    assert!(matches!(pool.disconnect(&report, C1, C2), Err(AudioCommandError::AudioTxNotFound)));
}

#[test]
fn connect_then_disconnect_leaves_no_relay() {
    let (mut pool, report) = joined_pair();
    pool.new_speaking_ssrc(0, 42, &vec![true, true]);
    pool.connect(&report, C1, C2).unwrap();
    assert!(pool.disconnect(&report, C1, C2).unwrap().is_empty());
    assert_eq!(pool.track_count(0, 1), 0);
    assert_eq!(pool.attach_track(0, 1, 42, 1), Some(1));
    assert!(pool.delete_speaking_ssrc(0, 42).is_empty());
    assert_eq!(pool.new_speaking_ssrc(0, 42, &vec![true, true]), Vec::<usize>::new());
}

#[test]
fn connecting_again_releases_the_old_tracks() {
    let (mut pool, report) = joined_pair();
    pool.connect(&report, C1, C2).unwrap();
    pool.new_speaking_ssrc(0, 42, &vec![true, true]);
    pool.attach_track(0, 1, 42, 31);
    let plan = pool.connect(&report, C1, C2).unwrap();
    assert_eq!(plan.released, vec![31]);
    assert_eq!(plan.sources, vec![42]);
    assert_eq!(pool.track_count(0, 1), 0);
}

#[test]
fn remove_clears_every_occupied_slot() {
    let (mut pool, report) = joined_pair();
    let (slots, sessions) = pool.remove(&report);
    assert_eq!(slots, vec![0, 1]);
    assert_eq!(sessions.len(), 2);
    assert_eq!(sessions[0].channel_id(), C1);
    assert_eq!(sessions[1].channel_id(), C2);
    assert!(!pool.has_session(0) && !pool.has_session(1));

    let (mut other, _) = joined_pair();
    let partial = vec![SlotStatus::Absent, SlotStatus::Idle];
    let (slots, sessions) = other.remove(&partial);
    assert_eq!(slots, vec![1]);
    assert_eq!(sessions.len(), 1);
    assert_eq!(sessions[0].channel_id(), C2);
    assert!(other.has_session(0));
    assert_eq!(occupied_slots(&partial), vec![1]);
}

#[test]
fn channel_resolves_to_the_first_slot_that_hosts_it() {
    let report = vec![
        SlotStatus::Idle,
        SlotStatus::InChannel(C2),
        SlotStatus::InChannel(C1),
        SlotStatus::InChannel(C2),
    ];
    assert_eq!(get_songbird_index_by_channel_id(&report, C2), Some(1));
    assert_eq!(get_songbird_index_by_channel_id(&report, C1), Some(2));
    assert_eq!(get_songbird_index_by_channel_id(&report, C3), None);
}

#[test]
fn commands_are_dispatched() {
    let mut pool: AudioServiceHandler<u32> = AudioServiceHandler::new(2);
    let mut report = vec![SlotStatus::Absent, SlotStatus::Absent];
    match pool.handle_command(AudioCommandPayload::Join(1, C1), &report) {
        Outcome::ConnectSlot { slot, guild, channel } => {
            assert_eq!((slot, guild, channel), (0, 1, C1));
            pool.finish_join(slot, channel, true).unwrap();
            report[slot] = SlotStatus::InChannel(channel);
        }
        other => panic!("unexpected outcome {:?}", other),
    }
    match pool.handle_command(AudioCommandPayload::Join(1, C2), &report) {
        Outcome::ConnectSlot { slot, guild, channel } => {
            assert_eq!((slot, guild, channel), (1, 1, C2));
            pool.finish_join(slot, channel, true).unwrap();
            report[slot] = SlotStatus::InChannel(channel);
        }
        other => panic!("unexpected outcome {:?}", other),
    }
    let connect = AudioCommandPayload::Connect { gid: 1, from_id: C2, to_id: C1 };
    match pool.handle_command(connect, &report) {
        Outcome::Relay(plan) => assert_eq!((plan.from, plan.to), (1, 0)),
        other => panic!("unexpected outcome {:?}", other),
    }
    let disconnect = AudioCommandPayload::Disconnect { gid: 1, from_id: C2, to_id: C1 };
    assert!(matches!(pool.handle_command(disconnect, &report), Outcome::Unrelay(_)));
    let unknown = AudioCommandPayload::Disconnect { gid: 1, from_id: C3, to_id: C1 };
    assert!(matches!(
        pool.handle_command(unknown, &report),
        Outcome::Reply(Err(AudioCommandError::ChannelNotFound))
    ));
    match pool.handle_command(AudioCommandPayload::Remove(1, C1), &report) {
        Outcome::Leave { guild, slots, sessions } => {
            assert_eq!(guild, 1);
            assert_eq!(slots, vec![0, 1]);
            assert_eq!(sessions.len(), 2);
        }
        other => panic!("unexpected outcome {:?}", other),
    }
}

#[test]
fn frames_travel_from_sender_to_reader() {
    let mut session: AudioTx<u32> = AudioTx::new(5, 2, C1);
    session.new_speaking_ssrc(42, &vec![true, true]);
    assert!(!session.send(&vec![1, 2, 3], 42));
    let mut rx = session.subscribe(42).unwrap();
    assert!(session.subscribe(43).is_none());
    assert!(!session.send(&vec![1, 2, 3], 43));
    assert!(session.send(&vec![1, 2, 3, 4, 5, 6], 42));

    let mut reader = AudioRx::new();
    assert_eq!(reader.remaining(), 0);
    assert_eq!(reader.refill(&mut rx), Refill::Ready);
    assert_eq!(reader.remaining(), 6);
    let mut dst = [0u8; 4];
    assert_eq!(reader.read(&mut dst), 4);
    assert_eq!(dst, [1, 2, 3, 4]);
    let mut dst = [9u8; 4];
    assert_eq!(reader.read(&mut dst), 2);
    assert_eq!(dst, [5, 6, 9, 9]);
    assert_eq!(reader.read(&mut dst), 0);
    assert_eq!(reader.refill(&mut rx), Refill::Wait);

    session.delete_speaking_ssrc(42);
    assert_eq!(reader.refill(&mut rx), Refill::Eof);
}

#[test]
fn slow_reader_loses_the_oldest_frames() {
    let mut session: AudioTx<u32> = AudioTx::new(2, 1, C1);
    session.new_speaking_ssrc(42, &vec![true]);
    let mut rx = session.subscribe(42).unwrap();
    for n in 1..=4u8 {
        assert!(session.send(&vec![n], 42));
    }
    let mut reader = AudioRx::new();
    assert_eq!(reader.refill(&mut rx), Refill::Retry);
    assert_eq!(reader.refill(&mut rx), Refill::Ready);
    let mut dst = [0u8; 1];
    assert_eq!(reader.read(&mut dst), 1);
    assert_eq!(dst, [3]);
}

#[test]
fn empty_frame_ends_the_stream() {
    let mut session: AudioTx<u32> = AudioTx::new(5, 1, C1);
    session.new_speaking_ssrc(42, &vec![true]);
    let mut rx = session.subscribe(42).unwrap();
    assert!(session.send(&vec![8, 9], 42));
    assert!(session.send(&vec![], 42));
    let mut reader = AudioRx::new();
    assert_eq!(reader.refill(&mut rx), Refill::Ready);
    let mut dst = [0u8; 1];
    assert_eq!(reader.read(&mut dst), 1);
    assert_eq!(reader.refill(&mut rx), Refill::Eof);
    assert_eq!(reader.remaining(), 0);
    assert_eq!(reader.read(&mut dst), 0);
}

#[test]
fn accept_decides_for_each_outcome() {
    let mut reader = AudioRx::new();
    assert_eq!(reader.accept(Polled::Empty, false), Refill::Wait);
    assert_eq!(reader.accept(Polled::Lagged(3), false), Refill::Retry);
    assert_eq!(reader.accept(Polled::Lagged(3), true), Refill::Wait);
    assert_eq!(reader.accept(Polled::Frame(vec![1, 2]), true), Refill::Ready);
    assert_eq!(reader.remaining(), 2);
    assert_eq!(reader.accept(Polled::Closed, true), Refill::Eof);
    assert_eq!(reader.remaining(), 2);
    assert_eq!(reader.accept(Polled::Frame(vec![]), false), Refill::Eof);
    assert_eq!(reader.remaining(), 0);
}

#[test]
fn closing_a_session_hands_back_every_handle() {
    let mut session: AudioTx<u32> = AudioTx::new(5, 3, C1);
    session.connect_to(0);
    session.connect_to(2);
    let connected = vec![true, true, true];
    session.new_speaking_ssrc(42, &connected);
    session.new_speaking_ssrc(43, &connected);
    session.attach_track(2, 42, 20);
    session.attach_track(0, 42, 21);
    session.attach_track(2, 43, 22);
    let mut rx = session.subscribe(42).unwrap();
    assert_eq!(session.close(), vec![21, 20, 22]);
    let mut reader = AudioRx::new();
    assert_eq!(reader.refill(&mut rx), Refill::Eof);
}

#[test]
fn pool_publishes_through_the_session_of_the_slot() {
    let (mut pool, _) = joined_pair();
    pool.new_speaking_ssrc(0, 42, &vec![true, true]);
    assert!(!pool.send(0, &vec![1], 42));
    let mut rx = pool.subscribe(0, 42).unwrap();
    assert!(pool.subscribe(1, 42).is_none());
    assert!(pool.subscribe(7, 42).is_none());
    assert!(pool.send(0, &vec![1, 2], 42));
    assert!(!pool.send(1, &vec![1, 2], 42));
    assert!(!pool.send(7, &vec![1, 2], 42));
    let mut reader = AudioRx::new();
    assert_eq!(reader.refill(&mut rx), Refill::Ready);
    let mut dst = [0u8; 2];
    assert_eq!(reader.read(&mut dst), 2);
    assert_eq!(dst, [1, 2]);
}

#[test]
fn read_at_copies_behind_what_is_there() {
    let mut reader = AudioRx::new();
    assert_eq!(reader.accept(Polled::Frame(vec![1, 2, 3]), false), Refill::Ready);
    let mut dst = [7u8; 5];
    assert_eq!(reader.read_at(&mut dst, 1), 4);
    assert_eq!(dst, [7, 1, 2, 3, 7]);
    assert_eq!(reader.remaining(), 0);
    assert_eq!(reader.accept(Polled::Frame(vec![4, 5, 6]), false), Refill::Ready);
    assert_eq!(reader.read_at(&mut dst, 4), 5);
    assert_eq!(dst, [7, 1, 2, 3, 4]);
    assert_eq!(reader.remaining(), 2);
    assert_eq!(reader.read_at(&mut dst, 5), 5);
    assert_eq!(reader.remaining(), 2);
}

#[test]
fn fill_reads_across_frames_without_waiting() {
    let mut session: AudioTx<u32> = AudioTx::new(5, 1, C1);
    session.new_speaking_ssrc(42, &vec![true]);
    let mut rx = session.subscribe(42).unwrap();
    assert!(session.send(&vec![1, 2, 3], 42));
    assert!(session.send(&vec![4, 5], 42));
    assert!(session.send(&vec![6, 7, 8], 42));
    let mut reader = AudioRx::new();

    let mut dst = [0u8; 4];
    assert_eq!(reader.fill(&mut rx, &mut dst, 0), (4, Refill::Ready));
    assert_eq!(dst, [1, 2, 3, 4]);
    assert_eq!(reader.remaining(), 1);

    let mut dst = [0u8; 6];
    assert_eq!(reader.fill(&mut rx, &mut dst, 0), (4, Refill::Wait));
    assert_eq!(dst, [5, 6, 7, 8, 0, 0]);
    assert_eq!(reader.remaining(), 0);

    assert!(session.send(&vec![9], 42));
    assert_eq!(reader.fill(&mut rx, &mut dst, 4), (5, Refill::Wait));
    assert_eq!(dst, [5, 6, 7, 8, 9, 0]);

    session.delete_speaking_ssrc(42);
    assert_eq!(reader.fill(&mut rx, &mut dst, 5), (5, Refill::Eof));
    let mut none = [0u8; 0];
    assert_eq!(reader.fill(&mut rx, &mut none, 0), (0, Refill::Ready));
}

#[test]
fn fill_stops_at_an_empty_frame_and_at_lost_frames() {
    let mut session: AudioTx<u32> = AudioTx::new(2, 1, C1);
    session.new_speaking_ssrc(42, &vec![true]);
    let mut rx = session.subscribe(42).unwrap();
    assert!(session.send(&vec![1], 42));
    assert!(session.send(&vec![], 42));
    let mut reader = AudioRx::new();
    let mut dst = [0u8; 3];
    assert_eq!(reader.fill(&mut rx, &mut dst, 0), (1, Refill::Eof));
    assert_eq!(dst, [1, 0, 0]);

    for n in 10..14u8 {
        assert!(session.send(&vec![n], 42));
    }
    assert_eq!(reader.fill(&mut rx, &mut dst, 1), (1, Refill::Retry));
    assert_eq!(reader.fill(&mut rx, &mut dst, 1), (3, Refill::Ready));
    assert_eq!(dst, [1, 12, 13]);
}
