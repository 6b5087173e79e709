use dmx_console::console::ConsoleCommand;
use dmx_console::dmx_types::{AudioTrack, DMXBufferValue, FixtureGroup};
use dmx_console::executor::Cue;
use dmx_console::keypad::{
    next_tab, nudge_master_volume, press_at, press_blackout, press_cue, press_dot,
    press_grid_cell, press_please, press_word, reset_master_volume, send_line,
};
use dmx_console::text::{collect_chars, prefix_ends_with, trimmed_len};
use dmx_console::ui::{ConsoleState, EditingState, Tab};

#[test]
fn words_are_written_at_the_end_of_the_line() {
    let mut state = ConsoleState::default();
    press_word(&mut state, "Chan ");
    press_word(&mut state, "1");
    press_word(&mut state, "2");
    assert_eq!(state.command_input, "Chan 12");
}

#[test]
fn at_completes_or_continues_the_line() {
    let mut state = ConsoleState::default();
    press_word(&mut state, "Chan 7");
    press_at(&mut state);
    assert_eq!(state.command_input, "Chan 7 at ");
    assert!(state.buffer.is_empty());
    press_at(&mut state);
    assert_eq!(state.command_input, "");
    assert_eq!(state.buffer, vec![DMXBufferValue::new(7, 255)]);
    assert_eq!(state.command_history, vec![ConsoleCommand::DimChannel { ch: 7, value: 255 }]);
}

#[test]
fn dot_sends_the_line_with_level_zero() {
    let mut state = ConsoleState::default();
    press_word(&mut state, "chan 7 at");
    press_dot(&mut state);
    assert_eq!(state.buffer, vec![DMXBufferValue::new(7, 0)]);
    assert_eq!(state.command_input, "");
    press_word(&mut state, "chan 8  ");
    press_dot(&mut state);
    assert_eq!(state.buffer[1], DMXBufferValue::new(8, 0));
    press_dot(&mut state);
    assert_eq!(state.command_error.as_deref(), Some("Unknown command:  at 0"));
}

#[test]
fn please_sends_a_line_that_is_not_empty() {
    let mut state = ConsoleState::default();
    state.command_error = Some("before".to_string());
    press_please(&mut state);
    assert_eq!(state.command_error.as_deref(), Some("before"));
    press_word(&mut state, "bo");
    press_please(&mut state);
    assert_eq!(state.master_dimmer, 0);
    assert_eq!(state.command_input, "");
    assert!(state.command_error.is_none());
    press_blackout(&mut state);
    assert_eq!(state.master_dimmer, 1000);
    state.command_input = "nonsense".to_string();
    send_line(&mut state);
    assert_eq!(state.command_input, "");
    assert_eq!(state.command_error.as_deref(), Some("Unknown command: nonsense"));
}

#[test]
fn cues_write_a_move_while_a_move_is_armed() {
    let mut state = ConsoleState::default();
    state.executors[0].cue_list = vec![Cue::new(1), Cue::new(2)];
    state.executors[1].cue_list = vec![Cue::new(1)];
    press_cue(&mut state, 0, 2);
    assert_eq!(state.command_input, "");
    state.edit_state = EditingState::Move;
    press_cue(&mut state, 0, 2);
    assert_eq!(state.command_input, "Move Exec 1 Cue 2 To Exec ");
    assert_eq!(state.edit_state, EditingState::Move);
    press_cue(&mut state, 1, 1);
    assert_eq!(state.command_input, "");
    assert_eq!(state.edit_state, EditingState::Idle);
    let first: Vec<u32> = state.executors[0].cue_list.iter().map(|c| c.id).collect();
    let second: Vec<u32> = state.executors[1].cue_list.iter().map(|c| c.id).collect();
    assert_eq!(first, vec![2, 1]);
    assert_eq!(second, vec![2]);
    assert_eq!(
        state.command_history,
        vec![ConsoleCommand::MoveExecCueToExecCue {
            exec_from: 1,
            cue_from: 2,
            exec_to: 2,
            cue_to: 1
        }]
    );
}

#[test]
fn line_endings_are_found() {
    let line = collect_chars("move exec 1 cue 2 TO Exec \t ");
    let n = trimmed_len(&line);
    assert_eq!(n, 25);
    assert!(prefix_ends_with(&line, n, "to exec"));
    assert!(!prefix_ends_with(&line, n, "at"));
    assert!(!prefix_ends_with(&line, 3, "to exec"));
    assert_eq!(trimmed_len(&collect_chars("   ")), 0);
    assert_eq!(trimmed_len(&collect_chars("")), 0);
    assert_eq!(trimmed_len(&collect_chars("a")), 1);
}

#[test]
fn pages_turn_in_a_circle() {
    let mut state = ConsoleState::default();
    next_tab(&mut state);
    assert_eq!(state.selected_tab, Tab::Audio);
    next_tab(&mut state);
    assert_eq!(state.selected_tab, Tab::MidiOsc);
    next_tab(&mut state);
    assert_eq!(state.selected_tab, Tab::Show);
    next_tab(&mut state);
    assert_eq!(state.selected_tab, Tab::DmxConsole);
}

#[test]
fn volume_keys_stay_within_the_limit() {
    let mut state = ConsoleState::default();
    nudge_master_volume(&mut state, true);
    assert_eq!(state.master_volume, 1010);
    state.master_volume = 1495;
    nudge_master_volume(&mut state, true);
    assert_eq!(state.master_volume, 1500);
    nudge_master_volume(&mut state, true);
    assert_eq!(state.master_volume, 1500);
    nudge_master_volume(&mut state, false);
    assert_eq!(state.master_volume, 1490);
    state.master_volume = 4;
    nudge_master_volume(&mut state, false);
    assert_eq!(state.master_volume, 0);
    nudge_master_volume(&mut state, false);
    assert_eq!(state.master_volume, 0);
    state.master_volume = 9000;
    nudge_master_volume(&mut state, false);
    assert_eq!(state.master_volume, 1500);
    reset_master_volume(&mut state);
    assert_eq!(state.master_volume, 1000);
}

#[test]
fn grid_cells_select_groups() {
    let mut state = ConsoleState::default();
    let mut front = FixtureGroup::new(1, "front".to_string());
    front.grid_index = Some(4);
    front.fixture_ids = vec![3, 5];
    let mut back = FixtureGroup::new(2, "back".to_string());
    back.grid_index = Some(4);
    state.fixture_groups = vec![FixtureGroup::new(9, "loose".to_string()), front, back];
    press_grid_cell(&mut state, 4);
    assert_eq!(state.selected_group_id, Some(1));
    assert_eq!(state.selected_fixture_ids, vec![3, 5]);
    press_grid_cell(&mut state, 5);
    assert_eq!(state.selected_group_id, None);
    assert!(state.selected_fixture_ids.is_empty());
}

#[test]
fn track_times_have_to_fit() {
    let mut t = AudioTrack::new(1, "t".to_string(), "t.ogg".to_string());
    t.duration = 60_000;
    assert_eq!(t.fade_in_limit(), 60_000);
    assert_eq!(t.end_floor(), 0);
    t.fade_out = 5_000;
    t.start_point = 10_000;
    t.set_end_point(50_000);
    assert_eq!(t.end_point, Some(50_000));
    assert_eq!(t.fade_in_limit(), 35_000);
    t.fade_in = 20_000;
    assert_eq!(t.fade_out_limit(), 20_000);
    assert_eq!(t.start_limit(), 25_000);
    assert_eq!(t.end_floor(), 35_000);
    t.set_end_point(60_000);
    assert_eq!(t.end_point, None);
    t.set_end_point(0);
    assert_eq!(t.end_point, None);
    t.set_end_point(59_999);
    assert_eq!(t.end_point, Some(59_999));
    t.fade_in = 70_000;
    assert_eq!(t.fade_out_limit(), 0);
    t.fade_in = u32::MAX;
    t.fade_out = u32::MAX;
    assert_eq!(t.end_floor(), u32::MAX);
    t.end_point = Some(90_000);
    t.fade_in = 0;
    t.fade_out = 0;
    t.start_point = 0;
    assert_eq!(t.fade_in_limit(), 60_000);
}
