use dmx_console::audio::{
    audio_follow, audio_go, decrement_audio_index, effective, format_duration,
    increment_audio_index, next_track_after, AudioEngine, PlayerStatus, Ramp, VolumeOrder,
};
use dmx_console::dmx_types::{AudioAction, AudioTrack};
use dmx_console::ui::ConsoleState;

fn track(id: u32, action: AudioAction) -> AudioTrack {
    let mut t = AudioTrack::new(id, format!("track {}", id), format!("/music/{}.ogg", id));
    t.action = action;
    t
}

fn says(handle: u64, paused: bool, empty: bool, position: u32) -> PlayerStatus {
    PlayerStatus { handle, paused, empty, position }
}

#[test]
fn a_track_without_fade_in_starts_at_its_volume() {
    let mut engine = AudioEngine::new().unwrap();
    let mut t = track(1, AudioAction::NoAction);
    t.volume = 800;
    t.start_point = 1500;
    let order = engine.play(&t, 500).unwrap();
    assert_eq!(order.handle, 0);
    assert_eq!(order.initial_volume, 400);
    assert_eq!(order.ramp, None);
    assert_eq!(order.seek, 1500);
    assert!(order.halt.is_empty());
}

#[test]
fn a_track_with_fade_in_starts_silent_and_rises() {
    let mut engine = AudioEngine::new().unwrap();
    let mut t = track(1, AudioAction::NoAction);
    t.volume = 800;
    t.fade_in = 3000;
    let order = engine.play(&t, 1500).unwrap();
    assert_eq!(order.initial_volume, 0);
    assert_eq!(order.ramp, Some(Ramp { target: 1200, duration: 3000, step: 200 }));
}

#[test]
fn playing_again_halts_the_first_player() {
    let mut engine = AudioEngine::new().unwrap();
    let a = engine.play(&track(1, AudioAction::NoAction), 1000).unwrap();
    let b = engine.play(&track(2, AudioAction::NoAction), 1000).unwrap();
    let again = engine.play(&track(1, AudioAction::NoAction), 1000).unwrap();
    assert_eq!((a.handle, b.handle, again.handle), (0, 1, 2));
    assert_eq!(again.halt, vec![0]);
    let statuses = vec![says(0, false, false, 0), says(1, false, false, 0), says(2, false, false, 0)];
    assert_eq!(engine.get_current_playback(&statuses).len(), 2);
}

#[test]
fn stop_ends_playing_at_once() {
    let mut engine = AudioEngine::new().unwrap();
    let order = engine.play(&track(4, AudioAction::Follow), 1000).unwrap();
    let statuses = vec![says(order.handle, false, false, 10)];
    assert!(engine.is_playing(4, &statuses));
    assert_eq!(engine.stop(4), vec![order.handle]);
    assert!(!engine.is_playing(4, &statuses));
    assert!(engine.stop(4).is_empty());
    assert!(engine.update(&statuses).is_empty());
    assert!(engine.get_ended_tracks().is_empty());
}

#[test]
fn stop_all_halts_everything() {
    let mut engine = AudioEngine::new().unwrap();
    engine.play(&track(1, AudioAction::NoAction), 1000);
    engine.play(&track(2, AudioAction::NoAction), 1000);
    assert_eq!(engine.stop_all(), vec![0, 1]);
    assert!(engine.stop_all().is_empty());
    assert!(!engine.is_playing(1, &vec![says(0, false, false, 0)]));
}

#[test]
fn is_playing_needs_a_player_that_sounds() {
    let mut engine = AudioEngine::new().unwrap();
    engine.play(&track(1, AudioAction::NoAction), 1000);
    assert!(!engine.is_playing(1, &vec![]));
    assert!(!engine.is_playing(1, &vec![says(0, true, false, 0)]));
    assert!(!engine.is_playing(1, &vec![says(0, false, true, 0)]));
    assert!(!engine.is_playing(1, &vec![says(9, false, false, 0)]));
    assert!(engine.is_playing(1, &vec![says(0, false, false, 0)]));
    assert!(!engine.is_playing(2, &vec![says(0, false, false, 0)]));
}

#[test]
fn update_orders_volumes_and_collects_the_ended() {
    let mut engine = AudioEngine::new().unwrap();
    let mut quiet = track(1, AudioAction::Follow);
    quiet.volume = 500;
    engine.play(&quiet, 1000);
    engine.play(&track(2, AudioAction::Continue), 1000);
    engine.play(&track(3, AudioAction::NoAction), 1000);
    engine.play(&track(4, AudioAction::NoAction), 1000);
    let statuses = vec![
        says(0, false, false, 100),
        says(1, false, true, 200),
        says(2, true, true, 300),
    ];
    let orders = engine.update(&statuses);
    assert_eq!(orders, vec![VolumeOrder { handle: 0, volume: 500 }]);
    assert_eq!(engine.get_current_playback(&statuses), vec![100, 300, 0]);
    assert_eq!(engine.get_ended_tracks(), vec![(2, AudioAction::Continue)]);
    assert!(engine.get_ended_tracks().is_empty());
}

#[test]
fn master_volume_reaches_every_player() {
    let mut engine = AudioEngine::new().unwrap();
    let mut quiet = track(1, AudioAction::NoAction);
    quiet.volume = 500;
    engine.play(&quiet, 1000);
    engine.play(&track(2, AudioAction::NoAction), 1000);
    assert_eq!(
        engine.set_master_volume(1500),
        vec![VolumeOrder { handle: 0, volume: 750 }, VolumeOrder { handle: 1, volume: 1500 }]
    );
    let orders = engine.update(&vec![says(1, false, false, 0), says(0, false, false, 0)]);
    assert_eq!(
        orders,
        vec![VolumeOrder { handle: 0, volume: 750 }, VolumeOrder { handle: 1, volume: 1500 }]
    );
}

#[test]
fn effective_volume_is_the_product() {
    assert_eq!(effective(1000, 1000), 1000);
    assert_eq!(effective(800, 500), 400);
    assert_eq!(effective(333, 333), 110);
    assert_eq!(effective(0, 1500), 0);
    assert_eq!(effective(u32::MAX, u32::MAX), u32::MAX);
}

#[test]
fn a_followed_track_starts_the_next_exactly_once() {
    let mut state = ConsoleState::default();
    state.audio_tracks = vec![
        track(10, AudioAction::Follow),
        track(20, AudioAction::NoAction),
        track(30, AudioAction::Follow),
    ];
    let mut engine = AudioEngine::new().unwrap();
    let first = engine.play(&state.audio_tracks[0], 1000).unwrap();
    assert!(engine.update(&vec![says(first.handle, false, false, 5)]).len() == 1);
    assert!(engine.get_ended_tracks().is_empty());
    engine.update(&vec![says(first.handle, false, true, 9)]);
    let ended = engine.get_ended_tracks();
    assert_eq!(ended, vec![(10, AudioAction::Follow)]);
    let start = audio_follow(&mut state, &ended);
    assert_eq!(start, vec![1]);
    assert_eq!(state.audio_index, 1);
    let second = engine.play(&state.audio_tracks[1], 1000).unwrap();
    engine.update(&vec![says(first.handle, false, true, 9), says(second.handle, false, false, 1)]);
    let ended = engine.get_ended_tracks();
    assert!(ended.is_empty());
    assert!(audio_follow(&mut state, &ended).is_empty());
    assert_eq!(state.audio_index, 1);
    engine.update(&vec![says(second.handle, false, true, 1)]);
    let ended = engine.get_ended_tracks();
    assert_eq!(ended, vec![(20, AudioAction::NoAction)]);
    assert!(audio_follow(&mut state, &ended).is_empty());
}

#[test]
fn following_wraps_and_skips_tracks_that_are_gone() {
    let mut state = ConsoleState::default();
    state.audio_tracks = vec![track(10, AudioAction::Follow), track(30, AudioAction::Follow)];
    let start = audio_follow(
        &mut state,
        &vec![(30, AudioAction::Follow), (99, AudioAction::Follow), (10, AudioAction::Continue)],
    );
    assert_eq!(start, vec![0]);
    assert_eq!(state.audio_index, 0);
    assert_eq!(next_track_after(&state.audio_tracks, 10), Some(1));
    assert_eq!(next_track_after(&state.audio_tracks, 30), Some(0));
    assert_eq!(next_track_after(&state.audio_tracks, 31), None);
    assert_eq!(next_track_after(&vec![], 31), None);
}

#[test]
fn the_start_button_sets_tracks_off_and_moves_on() {
    let mut state = ConsoleState::default();
    assert!(audio_go(&mut state, 0).is_empty());
    assert_eq!(state.audio_index, 0);
    state.audio_tracks = vec![
        track(1, AudioAction::NoAction),
        track(2, AudioAction::Continue),
        track(3, AudioAction::Continue),
    ];
    assert_eq!(audio_go(&mut state, 3), vec![0]);
    assert_eq!(state.audio_index, 1);
    assert_eq!(audio_go(&mut state, 3), vec![1, 2]);
    assert_eq!(state.audio_index, 2);
    assert_eq!(audio_go(&mut state, 3), vec![2]);
    assert_eq!(state.audio_index, 0);
    state.audio_index = 7;
    assert!(audio_go(&mut state, 3).is_empty());
    assert_eq!(state.audio_index, 2);
}

#[test]
fn the_index_moves_around_the_ends() {
    let mut state = ConsoleState::default();
    decrement_audio_index(&mut state, 4);
    assert_eq!(state.audio_index, 3);
    increment_audio_index(&mut state, 4);
    assert_eq!(state.audio_index, 0);
    increment_audio_index(&mut state, 4);
    assert_eq!(state.audio_index, 1);
    decrement_audio_index(&mut state, 4);
    assert_eq!(state.audio_index, 0);
}

#[test]
fn durations_read_as_minutes_and_seconds() {
    assert_eq!(format_duration(0), "0:00");
    assert_eq!(format_duration(999), "0:00");
    assert_eq!(format_duration(9_000), "0:09");
    assert_eq!(format_duration(61_500), "1:01");
    assert_eq!(format_duration(600_000), "10:00");
    assert_eq!(format_duration(3_599_000), "59:59");
    assert_eq!(format_duration(u32::MAX), "71582:47");
}
