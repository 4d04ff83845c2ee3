use dashmap::DashMap;
use voice_relay::tracker::{difference, holds, Reaction, VoiceEvent, VoiceEventHandler};
use voice_relay::volume::Divisor;

#[test]
fn lookup_takes_the_oldest_announcement() {
    let mut tracker = VoiceEventHandler::new();
    assert_eq!(tracker.participant_of(42), None);
    tracker.on_speaking_update(42, Some(1000));
    tracker.on_speaking_update(43, Some(2000));
    tracker.on_speaking_update(42, Some(3000));
    assert_eq!(tracker.participant_of(42), Some(1000));
    assert_eq!(tracker.participant_of(43), Some(2000));
    assert_eq!(tracker.participant_of(44), None);
}

#[test]
fn announcement_without_participant_is_passed_over() {
    let mut tracker = VoiceEventHandler::new();
    tracker.on_speaking_update(42, None);
    assert_eq!(tracker.participant_of(42), None);
}

#[test]
fn disconnect_forgets_every_source_of_the_participant() {
    let mut tracker = VoiceEventHandler::new();
    tracker.on_speaking_update(42, Some(1000));
    tracker.on_speaking_update(43, Some(2000));
    tracker.on_speaking_update(44, Some(1000));
    tracker.on_speaking_update(42, Some(3000));
    tracker.on_client_disconnect(1000);
    assert_eq!(tracker.participant_of(42), Some(3000));
    assert_eq!(tracker.participant_of(43), Some(2000));
    assert_eq!(tracker.participant_of(44), None);
    tracker.on_client_disconnect(1000);
    assert_eq!(tracker.participant_of(42), Some(3000));
}

#[test]
fn volume_is_the_stored_divisor_of_the_participant() {
    let volumes: DashMap<u64, Divisor> = DashMap::new();
    volumes.insert(1000, Divisor::new(4).unwrap());
    let mut tracker = VoiceEventHandler::new();
    tracker.on_speaking_update(42, Some(1000));
    tracker.on_speaking_update(43, Some(2000));
    assert_eq!(tracker.volume_of(&volumes, 42).get(), 4);
    assert_eq!(tracker.volume_of(&volumes, 43).get(), 1);
    assert_eq!(tracker.volume_of(&volumes, 44).get(), 1);
    volumes.insert(1000, Divisor::new(9).unwrap());
    assert_eq!(tracker.volume_of(&volumes, 42).get(), 9);
}

#[test]
fn volume_falls_back_when_the_participant_left_mid_talk() {
    let volumes: DashMap<u64, Divisor> = DashMap::new();
    volumes.insert(1000, Divisor::new(4).unwrap());
    let mut tracker = VoiceEventHandler::new();
    tracker.on_speaking_update(42, Some(1000));
    let first = tracker.on_voice_tick(&vec![42]);
    assert_eq!(first, (vec![42], vec![]));
    assert_eq!(tracker.volume_of(&volumes, 42).get(), 4);
    tracker.on_client_disconnect(1000);
    let second = tracker.on_voice_tick(&vec![42]);
    assert_eq!(second, (vec![], vec![]));
    assert_eq!(tracker.participant_of(42), None);
    assert_eq!(tracker.volume_of(&volumes, 42).get(), 1);
}

#[test]
fn voice_tick_reports_who_started_and_who_stopped() {
    let mut tracker = VoiceEventHandler::new();
    assert_eq!(tracker.on_voice_tick(&vec![42, 7]), (vec![42, 7], vec![]));
    assert_eq!(tracker.on_voice_tick(&vec![7, 9]), (vec![9], vec![42]));
    assert_eq!(tracker.on_voice_tick(&vec![7, 9]), (vec![], vec![]));
    assert_eq!(tracker.on_voice_tick(&vec![]), (vec![], vec![7, 9]));
}

#[test]
fn voice_tick_counts_a_repeated_source_once() {
    let mut tracker = VoiceEventHandler::new();
    assert_eq!(tracker.on_voice_tick(&vec![5, 5, 6, 5]), (vec![5, 6], vec![]));
    assert_eq!(tracker.on_voice_tick(&vec![6, 6]), (vec![], vec![5]));
}

#[test]
fn difference_keeps_order_and_drops_repeats() {
    assert_eq!(difference(&vec![3, 1, 3, 2, 1], &vec![2]), vec![3, 1]);
    assert_eq!(difference(&vec![], &vec![2]), Vec::<u32>::new());
    assert!(holds(&vec![1, 2, 3], 2));
    assert!(!holds(&vec![1, 2, 3], 4));
}

#[test]
fn act_dispatches_each_kind_of_event() {
    let mut tracker = VoiceEventHandler::new();
    let update = VoiceEvent::SpeakingStateUpdate { ssrc: 42, user_id: Some(1000) };
    assert!(matches!(tracker.act(&update), Reaction::Nothing));
    assert_eq!(tracker.participant_of(42), Some(1000));

    let tick = VoiceEvent::VoiceTick { speaking: vec![42] };
    match tracker.act(&tick) {
        Reaction::Speakers { started, stopped } => {
            assert_eq!(started, vec![42]);
            assert!(stopped.is_empty());
        }
        other => panic!("unexpected reaction {:?}", other),
    }

    let leave = VoiceEvent::ClientDisconnect { user_id: 1000 };
    assert!(matches!(tracker.act(&leave), Reaction::Nothing));
    assert_eq!(tracker.participant_of(42), None);

    assert!(matches!(tracker.act(&VoiceEvent::DriverDisconnect), Reaction::ReleaseEvents));
    assert!(matches!(tracker.act(&VoiceEvent::Other), Reaction::Nothing));

    let quiet = VoiceEvent::VoiceTick { speaking: vec![] };
    match tracker.act(&quiet) {
        Reaction::Speakers { started, stopped } => {
            assert!(started.is_empty());
            assert_eq!(stopped, vec![42]);
        }
        other => panic!("unexpected reaction {:?}", other),
    }
}

#[test]
fn guild_volume_map_is_made_once_and_shared() {
    let all: DashMap<u64, std::sync::Arc<DashMap<u64, Divisor>>> = DashMap::new();
    let first = voice_relay::volume::volumes_of_guild(&all, 5);
    assert!(first.is_empty());
    first.insert(1000, Divisor::new(3).unwrap());
    let second = voice_relay::volume::volumes_of_guild(&all, 5);
    assert!(std::sync::Arc::ptr_eq(&first, &second));
    assert_eq!(second.get(&1000).map(|d| d.get()), Some(3));
    let other = voice_relay::volume::volumes_of_guild(&all, 6);
    assert!(!std::sync::Arc::ptr_eq(&first, &other));
    assert!(other.is_empty());
    assert_eq!(all.len(), 2);
}

#[test]
fn found_volume_map_is_the_one_handed_back() {
    let all: DashMap<u64, std::sync::Arc<DashMap<u64, Divisor>>> = DashMap::new();
    let held: std::sync::Arc<DashMap<u64, Divisor>> = std::sync::Arc::new(DashMap::new());
    held.insert(1000, Divisor::new(6).unwrap());
    let same = voice_relay::volume::found_or_new_volumes(&all, 5, Some(std::sync::Arc::clone(&held)));
    assert!(std::sync::Arc::ptr_eq(&same, &held));
    assert!(all.is_empty());

    let made = voice_relay::volume::found_or_new_volumes(&all, 5, None);
    assert!(made.is_empty());
    assert!(!std::sync::Arc::ptr_eq(&made, &held));
    let kept = all.get(&5).map(|entry| std::sync::Arc::clone(entry.value())).unwrap();
    assert!(std::sync::Arc::ptr_eq(&kept, &made));
}
