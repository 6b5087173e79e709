use dmx_console::dmx_output::{
    mix_executor_outputs, mix_executor_outputs_at, mix_frame, record_link_health,
};
use dmx_console::dmx_types::DMXBufferValue;
use dmx_console::executor::{Cue, Executor};
use dmx_console::operations::store_to_executor;
use dmx_console::ui::ConsoleState;

/// An executor that was never gone to, with one cue that holds `value`
/// for `channel`, its fader and output at `level`.
fn lit(id: u32, channel: usize, value: u8, level: u32) -> Executor {
    let mut cue = Cue::new(1);
    cue.levels[channel - 1] = value;
    let mut e = Executor::new(id);
    e.cue_list.push(cue);
    e.fader_level = level;
    e.last_fader_level = level;
    e.current_output_level = level;
    e
}

#[test]
fn empty_console_mixes_a_dark_frame() {
    assert_eq!(mix_frame(&vec![], &vec![], 1000), vec![0u8; 512]);
}

#[test]
fn half_master_halves_the_frame() {
    let frame = mix_frame(&vec![lit(0, 1, 200, 1000)], &vec![], 500);
    assert_eq!(frame[0], 100);
    assert_eq!(frame.len(), 512);
}

#[test]
fn buffer_wins_over_executors() {
    let frame = mix_frame(&vec![lit(0, 10, 255, 1000)], &vec![DMXBufferValue::new(10, 0)], 1000);
    assert_eq!(frame[9], 0);
    let frame = mix_frame(&vec![lit(0, 10, 3, 1000)], &vec![DMXBufferValue::new(10, 250)], 1000);
    assert_eq!(frame[9], 250);
}

#[test]
fn master_scales_the_buffer_too() {
    let frame = mix_frame(&vec![], &vec![DMXBufferValue::new(3, 200)], 500);
    assert_eq!(frame[2], 100);
    let frame = mix_frame(&vec![], &vec![DMXBufferValue::new(3, 200)], 0);
    assert_eq!(frame, vec![0u8; 512]);
}

#[test]
fn later_executor_wins() {
    let first = lit(0, 5, 100, 1000);
    let mut second = lit(1, 5, 40, 1000);
    second.cue_list[0].levels[7] = 9;
    let frame = mix_frame(&vec![first, second], &vec![], 1000);
    assert_eq!(frame[4], 40);
    assert_eq!(frame[7], 9);
    let first = lit(0, 5, 100, 1000);
    let second = lit(1, 6, 40, 1000);
    let frame = mix_frame(&vec![first, second], &vec![], 1000);
    assert_eq!(frame[4], 0);
    assert_eq!(frame[5], 40);
}

#[test]
fn executor_level_scales_its_channels() {
    let frame = mix_frame(&vec![lit(0, 1, 200, 250)], &vec![], 1000);
    assert_eq!(frame[0], 50);
    let frame = mix_frame(&vec![lit(0, 1, 200, 250)], &vec![], 500);
    assert_eq!(frame[0], 25);
}

#[test]
fn silent_or_empty_executors_stay_out() {
    let silent = lit(1, 5, 40, 0);
    let mut empty = lit(2, 5, 77, 1000);
    empty.cue_list.clear();
    let frame = mix_frame(&vec![lit(0, 5, 100, 1000), silent, empty], &vec![], 1000);
    assert_eq!(frame[4], 100);
}

#[test]
fn channels_outside_the_frame_are_left_out() {
    let buffer = vec![
        DMXBufferValue::new(513, 9),
        DMXBufferValue::new(usize::MAX, 9),
        DMXBufferValue::new(512, 8),
        DMXBufferValue::new(0, 7),
    ];
    let frame = mix_frame(&vec![], &buffer, 1000);
    assert_eq!(frame[511], 8);
    assert_eq!(frame[0], 7);
    assert_eq!(frame.iter().filter(|v| **v != 0).count(), 2);
}

#[test]
fn a_cue_with_few_levels_leaves_the_rest() {
    let mut e = lit(0, 1, 10, 1000);
    e.cue_list[0].levels = vec![50, 60];
    let frame = mix_frame(&vec![lit(1, 3, 30, 1000), e], &vec![], 1000);
    assert_eq!(&frame[0..4], &[50, 60, 30, 0]);
}

#[test]
fn the_current_cue_is_mixed_not_what_was_stored_at_the_last_go() {
    let mut e = lit(0, 1, 200, 1000);
    e.cue_list.push(Cue::new(2));
    e.cue_list[1].levels[0] = 50;
    e.go_at(1);
    assert_eq!(e.current_cue_index, 1);
    e.current_output_level = 1000;
    assert_eq!(mix_frame(&vec![e.clone()], &vec![], 1000)[0], 50);
    e.cue_list[1].levels[0] = 60;
    assert_eq!(e.stored_channels[0], 50);
    assert_eq!(mix_frame(&vec![e.clone()], &vec![], 1000)[0], 60);
    e.current_cue_index = 7;
    assert_eq!(mix_frame(&vec![e], &vec![], 1000), vec![0u8; 512]);
}

#[test]
fn one_executor_never_gone_to_under_half_master() {
    let mut state = ConsoleState::default();
    let mut cue = Cue::new(1);
    cue.levels[0] = 200;
    state.executors[0].cue_list.push(cue);
    state.executors[0].fader_level = 1000;
    state.master_dimmer = 500;
    assert!(mix_executor_outputs_at(&mut state, 1_000));
    assert_eq!(state.channels[0], 100);
    assert!(state.channels[1..].iter().all(|v| *v == 0));
}

#[test]
fn of_two_executors_never_gone_to_the_later_wins() {
    let mut state = ConsoleState::default();
    let mut bright = Cue::new(1);
    bright.levels[0] = 255;
    let mut dim = Cue::new(1);
    dim.levels[0] = 100;
    state.executors[0].cue_list.push(bright);
    state.executors[1].cue_list.push(dim);
    state.executors[0].fader_level = 1000;
    state.executors[1].fader_level = 1000;
    mix_executor_outputs_at(&mut state, 1_000);
    assert_eq!(state.channels[0], 100);
}

#[test]
fn a_stored_cue_goes_out_once_the_fader_is_up() {
    let mut state = ConsoleState::default();
    state.buffer.push(DMXBufferValue::new(1, 200));
    store_to_executor(&mut state, 0);
    assert!(state.buffer.is_empty());
    state.executors[0].fader_level = 1000;
    mix_executor_outputs_at(&mut state, 5);
    assert_eq!(state.channels[0], 200);
    assert!(state.channels[1..].iter().all(|v| *v == 0));
}

#[test]
fn no_channel_goes_out_above_the_cues() {
    let mut state = ConsoleState::default();
    for (place, (value, fader)) in [(200u8, 1000u32), (90, 300), (255, 0)].iter().enumerate() {
        let mut cue = Cue::new(1);
        cue.levels = vec![*value; 512];
        cue.levels[place] = 10;
        state.executors[place].cue_list.push(cue);
        state.executors[place].fader_level = *fader;
    }
    state.master_dimmer = 800;
    mix_executor_outputs_at(&mut state, 9);
    for (i, out) in state.channels.iter().enumerate() {
        let highest = state
            .executors
            .iter()
            .filter_map(|e| e.cue_list.get(e.current_cue_index))
            .map(|cue| cue.levels[i])
            .max()
            .unwrap_or(0);
        assert!(*out <= highest, "channel {}", i + 1);
    }
}

#[test]
fn tick_advances_fades_and_reports_change() {
    let mut state = ConsoleState::default();
    let mut cue = Cue::new(1);
    cue.levels[0] = 200;
    cue.fade_time = 1000;
    state.executors[0].cue_list.push(cue);
    state.executors[0].go_at(10_000);
    state.executors[0].fader_level = 1000;
    state.executors[0].last_fader_level = 1000;
    assert!(!mix_executor_outputs_at(&mut state, 10_000));
    assert_eq!(state.channels[0], 0);
    assert!(mix_executor_outputs_at(&mut state, 10_500));
    assert_eq!(state.executors[0].current_output_level, 500);
    assert_eq!(state.channels[0], 100);
    assert!(!mix_executor_outputs_at(&mut state, 10_500));
    assert!(mix_executor_outputs_at(&mut state, 11_000));
    assert_eq!(state.channels[0], 200);
    assert!(!state.executors[0].is_fading);
    state.master_dimmer = 500;
    assert!(mix_executor_outputs_at(&mut state, 11_001));
    assert_eq!(state.channels[0], 100);
    state.buffer.push(DMXBufferValue::new(1, 0));
    assert!(mix_executor_outputs_at(&mut state, 11_002));
    assert_eq!(state.channels[0], 0);
}

#[test]
fn tick_with_the_clock() {
    let mut state = ConsoleState::default();
    let (changed, now) = mix_executor_outputs(&mut state);
    assert!(!changed);
    assert!(now > 0);
    state.buffer.push(DMXBufferValue::new(2, 9));
    let (changed, _) = mix_executor_outputs(&mut state);
    assert!(changed);
    assert_eq!(state.channels[1], 9);
}

#[test]
fn link_health_is_recorded() {
    let mut state = ConsoleState::default();
    record_link_health(&mut state, None);
    assert!(state.dmx_connected);
    record_link_health(&mut state, Some("DMX Port disconnected".to_string()));
    assert!(!state.dmx_connected);
    assert_eq!(state.dmx_serial_error, "DMX Port disconnected");
    record_link_health(&mut state, None);
    assert!(state.dmx_connected);
    assert_eq!(state.dmx_serial_error, "DMX Port disconnected");
}
