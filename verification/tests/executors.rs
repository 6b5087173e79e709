use dmx_console::dmx_types::DMXBufferValue;
use dmx_console::executor::{Cue, Executor};

fn cue(id: u32, fade_time: u32, first_channel: u8) -> Cue {
    let mut c = Cue::new(id);
    c.fade_time = fade_time;
    c.levels[0] = first_channel;
    c
}

fn executor_with(cues: Vec<Cue>) -> Executor {
    let mut e = Executor::new(0);
    e.cue_list = cues;
    e
}

#[test]
fn new_cue_is_dark_and_named_after_its_identifier() {
    let c = Cue::new(7);
    assert_eq!(c.id, 7);
    assert_eq!(c.name, "Cue 7");
    assert_eq!(c.fade_time, 0);
    assert_eq!(c.delay, 0);
    assert_eq!(c.levels, vec![0u8; 512]);
    assert_eq!(Cue::new(0).name, "Cue 0");
    assert_eq!(Cue::new(4294967295).name, "Cue 4294967295");
    assert_eq!(Cue::new(120).name, "Cue 120");
}

#[test]
fn new_executor_is_idle() {
    let e = Executor::new(3);
    assert_eq!(e.id, 3);
    assert_eq!(e.current_cue, None);
    assert_eq!(e.current_cue_index, 0);
    assert!(e.cue_list.is_empty());
    assert_eq!(e.fader_level, 0);
    assert_eq!(e.stored_channels, vec![0u8; 512]);
    assert!(!e.is_fading);
    assert!(!e.is_running);
}

#[test]
fn go_without_cues_changes_nothing() {
    let mut e = Executor::new(1);
    e.fader_level = 700;
    e.go();
    e.go_back();
    e.go_at(5);
    e.go_back_at(6);
    assert_eq!(e.current_cue, None);
    assert_eq!(e.current_cue_index, 0);
    assert!(!e.is_fading);
    assert_eq!(e.fade_start_time, 0);
    assert_eq!(e.target_level, 0);
    assert_eq!(e.fader_level, 700);
    assert_eq!(e.stored_channels, vec![0u8; 512]);
}

#[test]
fn go_steps_on_and_wraps() {
    let mut e = executor_with(vec![cue(1, 0, 10), cue(2, 0, 20), cue(3, 0, 30)]);
    e.fader_level = 800;
    e.go_at(1000);
    assert_eq!(e.current_cue_index, 1);
    assert_eq!(e.current_cue, Some(2));
    assert_eq!(e.stored_channels[0], 20);
    assert_eq!(e.target_level, 800);
    assert!(e.is_fading);
    assert_eq!(e.fade_start_time, 1000);
    e.go_at(2000);
    assert_eq!(e.current_cue_index, 2);
    e.go_at(3000);
    assert_eq!(e.current_cue_index, 0);
    assert_eq!(e.current_cue, Some(1));
    assert_eq!(e.stored_channels[0], 10);
    assert_eq!(e.fade_start_time, 3000);
}

#[test]
fn go_back_steps_back_and_wraps() {
    let mut e = executor_with(vec![cue(1, 0, 10), cue(2, 0, 20), cue(3, 0, 30)]);
    e.go_back_at(10);
    assert_eq!(e.current_cue_index, 2);
    assert_eq!(e.current_cue, Some(3));
    assert_eq!(e.stored_channels[0], 30);
    e.go_back_at(20);
    assert_eq!(e.current_cue_index, 1);
    e.current_cue_index = 17;
    e.go_back_at(30);
    assert_eq!(e.current_cue_index, 1);
    e.current_cue_index = usize::MAX;
    e.go_at(40);
    assert_eq!(e.current_cue_index, usize::MAX % 3);
}

#[test]
fn go_with_the_clock_starts_a_fade() {
    let mut e = executor_with(vec![cue(1, 0, 10), cue(2, 0, 20)]);
    e.go();
    assert_eq!(e.current_cue_index, 1);
    assert!(e.is_fading);
    assert!(e.fade_start_time > 0);
    e.go_back();
    assert_eq!(e.current_cue_index, 0);
}

#[test]
fn idle_output_follows_the_fader() {
    let mut e = executor_with(vec![cue(1, 2000, 10)]);
    e.fader_level = 600;
    e.last_fader_level = 600;
    e.update_fade_at(123);
    assert_eq!(e.current_output_level, 600);
    assert!(!e.is_fading);
    e.fader_level = 300;
    e.update_fade_at(124);
    assert_eq!(e.current_output_level, 300);
    assert_eq!(e.last_fader_level, 300);
}

#[test]
fn flash_up_starts_a_fade_towards_full() {
    let mut e = executor_with(vec![cue(1, 2000, 10)]);
    e.fader_level = 500;
    e.update_fade_at(10_000);
    assert!(e.is_fading);
    assert_eq!(e.target_level, 1000);
    assert_eq!(e.fade_start_time, 10_000);
    assert_eq!(e.current_output_level, 0);
    assert_eq!(e.last_fader_level, 500);
    e.update_fade_at(10_500);
    assert_eq!(e.current_output_level, 125);
    assert!(e.is_fading);
    e.update_fade_at(11_000);
    assert_eq!(e.current_output_level, 250);
    e.update_fade_at(12_000);
    assert_eq!(e.current_output_level, 500);
    assert!(!e.is_fading);
    e.update_fade_at(99_000);
    assert_eq!(e.current_output_level, 500);
}

#[test]
fn fade_after_go_runs_over_the_cues_fade_time() {
    let mut e = executor_with(vec![cue(1, 0, 10), cue(2, 4000, 20)]);
    e.fader_level = 1000;
    e.last_fader_level = 1000;
    e.go_at(50_000);
    e.update_fade_at(50_000);
    assert_eq!(e.current_output_level, 0);
    e.update_fade_at(51_000);
    assert_eq!(e.current_output_level, 250);
    e.update_fade_at(53_999);
    assert_eq!(e.current_output_level, 999);
    assert!(e.is_fading);
    e.update_fade_at(54_000);
    assert_eq!(e.current_output_level, 1000);
    assert!(!e.is_fading);
}

#[test]
fn a_cue_without_fade_time_is_there_at_once() {
    let mut e = executor_with(vec![cue(1, 0, 10), cue(2, 0, 20)]);
    e.fader_level = 900;
    e.last_fader_level = 900;
    e.go_at(1);
    e.update_fade_at(1);
    assert_eq!(e.current_output_level, 900);
    assert!(!e.is_fading);
}

#[test]
fn a_clock_that_went_back_counts_as_no_time_passed() {
    let mut e = executor_with(vec![cue(1, 1000, 10)]);
    e.fader_level = 1000;
    e.last_fader_level = 1000;
    e.go_at(5000);
    e.update_fade_at(4000);
    assert_eq!(e.current_output_level, 0);
    assert!(e.is_fading);
}

#[test]
fn without_cues_the_output_is_the_fader() {
    let mut e = Executor::new(0);
    e.fader_level = 444;
    e.update_fade_at(1);
    assert_eq!(e.current_output_level, 444);
    e.update_fade_at(2);
    assert_eq!(e.current_output_level, 444);
    let now = e.update_fade();
    assert!(now > 0);
    assert_eq!(e.current_output_level, 444);
}

#[test]
fn store_appends_a_cue_from_the_buffer() {
    let mut e = Executor::new(0);
    let buffer = vec![
        DMXBufferValue::new(1, 11),
        DMXBufferValue::new(512, 22),
        DMXBufferValue::new(0, 33),
        DMXBufferValue::new(513, 44),
        DMXBufferValue::new(1, 55),
    ];
    e.store(&buffer);
    assert_eq!(e.cue_list.len(), 1);
    let c = &e.cue_list[0];
    assert_eq!(c.id, 1);
    assert_eq!(c.name, "Cue 1");
    assert_eq!(c.levels.len(), 512);
    assert_eq!(c.levels[0], 55);
    assert_eq!(c.levels[511], 22);
    assert_eq!(c.levels[1..511].iter().map(|v| *v as u32).sum::<u32>(), 0);
    e.store(&vec![]);
    assert_eq!(e.cue_list[1].id, 2);
    assert_eq!(e.cue_list[1].levels, vec![0u8; 512]);
}

#[test]
fn a_stored_cue_gets_an_identifier_that_is_free() {
    let mut e = executor_with(vec![cue(1, 0, 0), cue(7, 0, 0), cue(3, 0, 0)]);
    e.store(&vec![]);
    assert_eq!(e.cue_list[3].id, 8);
    assert_eq!(e.cue_list[3].name, "Cue 8");
    e.cue_list[0].id = u32::MAX;
    e.store(&vec![]);
    assert_eq!(e.cue_list[4].id, u32::MAX);
}

#[test]
fn clear_cues_empties_the_executor() {
    let mut e = executor_with(vec![cue(1, 0, 10), cue(2, 0, 20)]);
    e.fader_level = 500;
    e.go_at(1);
    e.clear_cues();
    assert!(e.cue_list.is_empty());
    assert_eq!(e.current_cue, None);
    assert_eq!(e.current_cue_index, 0);
    assert_eq!(e.stored_channels, vec![0u8; 512]);
    assert_eq!(e.fader_level, 500);
}
