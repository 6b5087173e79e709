use dmx_console::console::ConsoleCommand;
use dmx_console::dmx_types::{ChannelType, Color, DMXBufferValue, Fixture};
use dmx_console::interpreter::{apply_command, execute_console_command, find_fixture};
use dmx_console::ui::{ConsoleState, DmxSubTab, EditingState, FixturesTab, Tab};

fn run(state: &mut ConsoleState, line: &str) {
    state.command_input = line.to_string();
    execute_console_command(state);
}

#[test]
fn a_fresh_console() {
    let state = ConsoleState::default();
    assert_eq!(state.executors.len(), 10);
    for (i, e) in state.executors.iter().enumerate() {
        assert_eq!(e.id as usize, i);
        assert!(e.cue_list.is_empty());
        assert_eq!(e.current_cue, None);
        assert_eq!(e.current_cue_index, 0);
        assert!(!e.is_running);
        assert!(!e.is_fading);
        assert_eq!(
            (e.fader_level, e.target_level, e.current_output_level, e.last_fader_level),
            (0, 0, 0, 0)
        );
        assert_eq!(e.fade_start_time, 0);
        assert_eq!(e.stored_channels, vec![0u8; 512]);
    }
    assert_eq!(state.channels, vec![0u8; 512]);
    assert!(state.buffer.is_empty());
    assert_eq!(state.master_dimmer, 1000);
    assert_eq!(state.master_volume, 1000);
    assert_eq!(state.template_library.templates.len(), 11);
    assert_eq!(state.selected_tab, Tab::DmxConsole);
    assert_eq!(state.dmx_sub_tab, DmxSubTab::Executor);
    assert_eq!(state.fixtures_tab, FixturesTab::Creation);
    assert_eq!(state.edit_state, EditingState::Idle);
    assert!(state.audio_engine.is_some());
    assert!(state.osc_manager.1.is_none());
    assert!(!state.dmx_connected);
    assert_eq!(Tab::default(), Tab::DmxConsole);
    assert_eq!(DmxSubTab::default(), DmxSubTab::Executor);
    assert_eq!(FixturesTab::default(), FixturesTab::Creation);
    assert_eq!(EditingState::default(), EditingState::Idle);
}

#[test]
fn editing_state_arms_and_disarms() {
    let mut s = EditingState::Idle;
    assert!(s.is_none());
    assert!(!s.if_any());
    s.reset_if_set(EditingState::Store);
    assert!(s.is_store());
    assert!(s.if_any());
    s.reset_if_set(EditingState::Edit);
    assert!(s.is_none());
    s.set(EditingState::Edit);
    assert!(s.is_edit());
    s.set(EditingState::Delete);
    assert!(s.is_delete());
    s.set(EditingState::Label);
    assert!(s.is_label());
    s.set(EditingState::Copy);
    assert!(s.is_copy());
    s.set(EditingState::Move);
    assert!(s.is_move());
    s.set(EditingState::OSCLearn);
    assert!(s.is_osc_learn());
    assert!(!s.is_move());
    s.reset();
    assert!(s.is_none());
}

#[test]
fn clear_empties_the_buffer() {
    let mut state = ConsoleState::default();
    run(&mut state, "chan 1 at 1");
    run(&mut state, "chan 2 at 2");
    run(&mut state, "chan 1 at 3");
    assert_eq!(state.buffer, vec![DMXBufferValue::new(1, 3), DMXBufferValue::new(2, 2)]);
    run(&mut state, "clr");
    assert!(state.buffer.is_empty());
    assert_eq!(
        state.command_history,
        vec![
            ConsoleCommand::DimChannel { ch: 1, value: 1 },
            ConsoleCommand::DimChannel { ch: 2, value: 2 },
            ConsoleCommand::DimChannel { ch: 1, value: 3 },
            ConsoleCommand::Clear,
        ]
    );
}

#[test]
fn dimming_a_fixture_writes_its_intensity_channel() {
    let mut state = ConsoleState::default();
    let mut par = Fixture::new(1, "par".to_string(), 20, 3, 0);
    par.color = Color::from_rgb(9, 0, 0);
    state.fixtures.push(par);
    run(&mut state, "fix 1 at 180");
    assert_eq!(state.buffer, vec![DMXBufferValue::new(20, 180)]);
    assert_eq!(state.fixtures[0].intensity, 180);
    assert_eq!(state.fixtures[0].color.w, 0);
    assert_eq!(state.command_history.len(), 1);
}

#[test]
fn dimming_a_colorless_fixture_writes_white_too() {
    let mut state = ConsoleState::default();
    state.fixtures.push(Fixture::new(1, "par".to_string(), 20, 3, 0));
    state.fixtures.push(Fixture::new(2, "bare".to_string(), 40, 3, 1));
    run(&mut state, "fix 1 at 180");
    assert_eq!(
        state.buffer,
        vec![DMXBufferValue::new(20, 180), DMXBufferValue::new(24, 180)]
    );
    assert_eq!(state.fixtures[0].color.w, 180);
    run(&mut state, "fix 2 at 7");
    assert_eq!(state.buffer[2], DMXBufferValue::new(43, 7));
    assert_eq!(state.fixtures[1].intensity, 7);
    assert_eq!(state.fixtures[1].color.w, 7);
    // Fixture 1 shows white now, so only its intensity follows.
    run(&mut state, "fix 1 at 10");
    assert_eq!(state.buffer[0], DMXBufferValue::new(20, 10));
    assert_eq!(state.buffer[1], DMXBufferValue::new(24, 180));
    assert_eq!(state.fixtures[0].color.w, 180);
}

#[test]
fn dimming_a_fixture_without_template_writes_its_start_channel() {
    let mut state = ConsoleState::default();
    state.fixtures.push(Fixture::new(5, "odd".to_string(), 300, 999, 0));
    run(&mut state, "fix 5 at 64");
    assert_eq!(state.buffer, vec![DMXBufferValue::new(300, 64)]);
    assert_eq!(state.fixtures[0].intensity, 64);
    assert_eq!(state.command_history.len(), 1);
}

#[test]
fn coloring_a_fixture_writes_its_color_channels() {
    let mut state = ConsoleState::default();
    state.fixtures.push(Fixture::new(1, "par".to_string(), 20, 3, 0));
    run(&mut state, "chan 22 at 1");
    run(&mut state, "fix 1 color r10 g20 b30 w40");
    assert_eq!(
        state.buffer,
        vec![
            DMXBufferValue::new(22, 20),
            DMXBufferValue::new(21, 10),
            DMXBufferValue::new(23, 30),
            DMXBufferValue::new(24, 40),
        ]
    );
    assert_eq!(
        state.fixtures[0].color,
        Color { r: 10, g: 20, b: 30, w: 40, amber: 0, uv: 0 }
    );
    assert_eq!(state.command_history.len(), 2);
}

#[test]
fn coloring_a_fixture_without_template_does_nothing() {
    let mut state = ConsoleState::default();
    state.fixtures.push(Fixture::new(5, "odd".to_string(), 300, 999, 0));
    run(&mut state, "fix 5 color r1 g2 b3 w4");
    assert!(state.buffer.is_empty());
    assert_eq!(state.fixtures[0].color, Color::default());
    assert!(state.command_history.is_empty());
    assert!(state.command_error.is_none());
}

#[test]
fn a_missing_fixture_leaves_a_message() {
    let mut state = ConsoleState::default();
    run(&mut state, "fix 3 at 10");
    assert_eq!(state.command_error.as_deref(), Some("Fixture 3 not found"));
    run(&mut state, "fix 4 color r1 g1 b1 w1");
    assert_eq!(state.command_error.as_deref(), Some("Fixture 4 not found"));
    assert!(state.buffer.is_empty());
    assert!(state.command_history.is_empty());
    apply_command(&mut state, ConsoleCommand::DimFixture { fixture_id: 9, value: 1 });
    assert_eq!(state.command_error.as_deref(), Some("Fixture 9 not found"));
}

#[test]
fn the_first_fixture_with_an_id_is_found() {
    let fixtures = vec![
        Fixture::new(3, "a".to_string(), 1, 1, 0),
        Fixture::new(4, "b".to_string(), 2, 1, 0),
        Fixture::new(3, "c".to_string(), 3, 1, 0),
    ];
    assert_eq!(find_fixture(&fixtures, 3), Some(0));
    assert_eq!(find_fixture(&fixtures, 4), Some(1));
    assert_eq!(find_fixture(&fixtures, 5), None);
    let _ = ChannelType::Red;
}
