use dmx_console::console::ConsoleCommand;
use dmx_console::dmx_types::{AudioAction, DMXBufferValue, Fixture, FixtureGroup};
use dmx_console::executor::Cue;
use dmx_console::listing::{remove_keyed, swap_items};
use dmx_console::operations::{
    add_audio_track, add_fixture, add_selected_to_group, cancel_delete, confirm_delete,
    create_group, move_track_down, move_track_up, press_back, press_clear_button, press_go,
    press_mode_button, press_store_button, remove_audio_track, remove_cue, remove_fixture,
    remove_group, save_cue_name, store_to_executor, toggle_fixture_selection,
};
use dmx_console::ui::{ConsoleState, EditingState};

#[test]
fn mode_buttons_arm_and_disarm() {
    let mut state = ConsoleState::default();
    press_mode_button(&mut state, EditingState::Edit);
    assert_eq!(state.edit_state, EditingState::Edit);
    press_mode_button(&mut state, EditingState::Delete);
    assert_eq!(state.edit_state, EditingState::Delete);
    press_mode_button(&mut state, EditingState::Delete);
    assert_eq!(state.edit_state, EditingState::Idle);
}

#[test]
fn store_button_needs_a_buffer() {
    let mut state = ConsoleState::default();
    press_store_button(&mut state);
    assert_eq!(state.edit_state, EditingState::Idle);
    state.buffer.push(DMXBufferValue::new(1, 1));
    press_store_button(&mut state);
    assert_eq!(state.edit_state, EditingState::Store);
    press_store_button(&mut state);
    assert_eq!(state.edit_state, EditingState::Idle);
    state.edit_state = EditingState::Move;
    press_store_button(&mut state);
    assert_eq!(state.edit_state, EditingState::Idle);
}

#[test]
fn clear_button_empties_the_buffer_or_disarms() {
    let mut state = ConsoleState::default();
    state.edit_state = EditingState::Edit;
    state.buffer.push(DMXBufferValue::new(1, 1));
    press_clear_button(&mut state);
    assert!(state.buffer.is_empty());
    assert_eq!(state.command_history, vec![ConsoleCommand::Clear]);
    assert_eq!(state.edit_state, EditingState::Edit);
    press_clear_button(&mut state);
    assert_eq!(state.edit_state, EditingState::Idle);
    assert_eq!(state.command_history.len(), 1);
}

#[test]
fn go_in_store_mode_stores_the_buffer_and_clears_it() {
    let mut state = ConsoleState::default();
    state.buffer.push(DMXBufferValue::new(3, 99));
    state.edit_state = EditingState::Store;
    press_go(&mut state, 4, 1000);
    assert_eq!(state.executors[4].cue_list.len(), 1);
    assert_eq!(state.executors[4].cue_list[0].id, 1);
    assert_eq!(state.executors[4].cue_list[0].levels[2], 99);
    assert_eq!(state.executors[4].current_cue, None);
    assert!(state.buffer.is_empty());
    assert_eq!(state.edit_state, EditingState::Idle);
    state.buffer.push(DMXBufferValue::new(4, 1));
    store_to_executor(&mut state, 4);
    assert_eq!(state.executors[4].cue_list[1].id, 2);
    store_to_executor(&mut state, 10);
    assert_eq!(state.executors[4].cue_list.len(), 2);
}

#[test]
fn go_and_back_follow_the_mode() {
    let mut state = ConsoleState::default();
    state.executors[1].cue_list = vec![Cue::new(1), Cue::new(2)];
    state.edit_state = EditingState::Edit;
    press_go(&mut state, 1, 5);
    assert_eq!(state.editing_executor, Some(1));
    state.edit_state = EditingState::Label;
    press_go(&mut state, 2, 5);
    assert_eq!(state.editing_executor, Some(2));
    state.edit_state = EditingState::Delete;
    press_go(&mut state, 3, 5);
    assert_eq!(state.delete_confirm_executor, Some(3));
    press_back(&mut state, 1, 5);
    assert_eq!(state.delete_confirm_executor, Some(1));
    assert_eq!(state.executors[1].current_cue, None);
    state.edit_state = EditingState::Idle;
    press_go(&mut state, 1, 77);
    assert_eq!(state.executors[1].current_cue, Some(2));
    assert_eq!(state.executors[1].fade_start_time, 77);
    press_back(&mut state, 1, 78);
    assert_eq!(state.executors[1].current_cue, Some(1));
    state.edit_state = EditingState::Copy;
    press_go(&mut state, 1, 79);
    assert_eq!(state.executors[1].current_cue, Some(2));
    press_go(&mut state, 10, 80);
    press_back(&mut state, 10, 80);
}

#[test]
fn deleting_needs_a_yes() {
    let mut state = ConsoleState::default();
    state.executors[0].cue_list = vec![Cue::new(1), Cue::new(2)];
    state.executors[0].go_at(1);
    state.edit_state = EditingState::Delete;
    state.delete_confirm_executor = Some(0);
    cancel_delete(&mut state);
    assert_eq!(state.delete_confirm_executor, None);
    assert_eq!(state.executors[0].cue_list.len(), 2);
    assert_eq!(state.edit_state, EditingState::Delete);
    state.delete_confirm_executor = Some(0);
    confirm_delete(&mut state, 0);
    assert!(state.executors[0].cue_list.is_empty());
    assert_eq!(state.executors[0].current_cue, None);
    assert_eq!(state.delete_confirm_executor, None);
    assert_eq!(state.edit_state, EditingState::Idle);
    confirm_delete(&mut state, 99);
}

#[test]
fn a_cue_is_named_from_the_field() {
    let mut state = ConsoleState::default();
    state.executors[0].cue_list = vec![Cue::new(1), Cue::new(2)];
    state.label_buffer = "Blue wash".to_string();
    state.labeling_cue = Some(2);
    assert!(!save_cue_name(&mut state, 0));
    state.edit_state = EditingState::Label;
    assert!(!save_cue_name(&mut state, 1));
    assert!(!save_cue_name(&mut state, 10));
    assert!(save_cue_name(&mut state, 0));
    assert_eq!(state.executors[0].cue_list[1].name, "Blue wash");
    assert_eq!(state.executors[0].cue_list[0].name, "Cue 1");
    assert_eq!(state.label_buffer, "");
    assert_eq!(state.labeling_cue, None);
    assert_eq!(state.edit_state, EditingState::Idle);
    state.edit_state = EditingState::Label;
    assert!(!save_cue_name(&mut state, 0));
    state.labeling_cue = Some(9);
    assert!(!save_cue_name(&mut state, 0));
}

#[test]
fn a_single_cue_is_removed() {
    let mut state = ConsoleState::default();
    state.executors[0].cue_list = vec![Cue::new(1), Cue::new(2), Cue::new(2)];
    assert!(remove_cue(&mut state, 0, 2));
    let ids: Vec<u32> = state.executors[0].cue_list.iter().map(|c| c.id).collect();
    assert_eq!(ids, vec![1, 2]);
    assert!(!remove_cue(&mut state, 0, 7));
    assert!(!remove_cue(&mut state, 10, 1));
}

fn patch(state: &mut ConsoleState, name: &str, start: &str, template: u32, mode: usize) {
    state.new_fixture_name = name.to_string();
    state.new_fixture_start_channel = start.to_string();
    state.selected_template_id = Some(template);
    state.selected_mode_index = mode;
    add_fixture(state);
}

#[test]
fn fixtures_are_patched_side_by_side() {
    let mut state = ConsoleState::default();
    patch(&mut state, "left", "1", 3, 0);
    assert_eq!(state.fixtures.len(), 1);
    assert_eq!(state.fixtures[0].id, 1);
    assert_eq!(state.fixtures[0].name, "left");
    assert_eq!(state.fixtures[0].start_channel, 1);
    let f = &state.fixtures[0];
    assert_eq!((f.template_id, f.mode_index, f.intensity), (3, 0, 0));
    assert_eq!((f.pan, f.tilt, f.zoom, f.focus, f.shutter, f.gobo), (128, 128, 128, 128, 0, 0));
    assert!(!f.color.has_color());
    assert_eq!((f.color.amber, f.color.uv), (0, 0));
    assert!(f.custom_values.is_empty());
    assert_eq!(state.new_fixture_name, "");
    assert_eq!(state.new_fixture_start_channel, "");
    assert!(state.fixture_error.is_none());
    patch(&mut state, "right", "6", 3, 1);
    assert_eq!(state.fixtures.len(), 2);
    assert_eq!(state.fixtures[1].id, 2);
    assert_eq!(state.fixtures[1].mode_index, 1);
    patch(&mut state, "end", "512", 1, 0);
    assert_eq!(state.fixtures.len(), 3);
}

#[test]
fn a_collision_is_refused_with_a_message() {
    let mut state = ConsoleState::default();
    patch(&mut state, "left", "10", 3, 0);
    patch(&mut state, "over", "14", 2, 0);
    assert_eq!(state.fixtures.len(), 1);
    assert_eq!(
        state.fixture_error.as_deref(),
        Some("Channel collision! Channels 14 to 17 overlap with existing fixture")
    );
    assert_eq!(state.new_fixture_name, "over");
    patch(&mut state, "under", "7", 2, 0);
    assert_eq!(
        state.fixture_error.as_deref(),
        Some("Channel collision! Channels 7 to 10 overlap with existing fixture")
    );
    patch(&mut state, "fits", "6", 2, 0);
    assert_eq!(state.fixtures.len(), 2);
    assert!(state.fixture_error.is_none());
    patch(&mut state, "after", "15", 2, 0);
    assert_eq!(state.fixtures.len(), 3);
}

#[test]
fn patching_needs_a_name_a_place_and_channels() {
    let mut state = ConsoleState::default();
    patch(&mut state, "", "1", 1, 0);
    patch(&mut state, "zero", "0", 1, 0);
    patch(&mut state, "far", "513", 1, 0);
    patch(&mut state, "no mode", "1", 1, 5);
    patch(&mut state, "no template", "1", 99, 0);
    assert!(state.fixtures.is_empty());
    assert!(state.fixture_error.is_none());
    state.selected_template_id = None;
    state.new_fixture_name = "none".to_string();
    add_fixture(&mut state);
    assert!(state.fixtures.is_empty());
    patch(&mut state, "default place", "seven", 1, 0);
    assert_eq!(state.fixtures[0].start_channel, 1);
    patch(&mut state, "plus", "+9", 1, 0);
    assert_eq!(state.fixtures[1].start_channel, 9);
}

#[test]
fn fixtures_and_groups_are_removed_by_id() {
    let mut state = ConsoleState::default();
    state.fixtures = vec![
        Fixture::new(1, "a".to_string(), 1, 1, 0),
        Fixture::new(2, "b".to_string(), 2, 1, 0),
        Fixture::new(1, "c".to_string(), 3, 1, 0),
    ];
    remove_fixture(&mut state, 1);
    assert_eq!(state.fixtures.len(), 1);
    assert_eq!(state.fixtures[0].name, "b");
    remove_fixture(&mut state, 7);
    assert_eq!(state.fixtures.len(), 1);
    state.fixture_groups =
        vec![FixtureGroup::new(1, "x".to_string()), FixtureGroup::new(2, "y".to_string())];
    remove_group(&mut state, 2);
    assert_eq!(state.fixture_groups.len(), 1);
    assert_eq!(state.fixture_groups[0].name, "x");
}

#[test]
fn groups_are_made_and_filled() {
    let mut state = ConsoleState::default();
    create_group(&mut state);
    assert!(state.fixture_groups.is_empty());
    state.new_group_name = "front".to_string();
    state.new_group_grid_index = Some(4);
    create_group(&mut state);
    assert_eq!(state.fixture_groups.len(), 1);
    assert_eq!(state.fixture_groups[0].id, 1);
    assert_eq!(state.fixture_groups[0].name, "front");
    assert_eq!(state.fixture_groups[0].grid_index, Some(4));
    assert_eq!(state.new_group_name, "");
    assert_eq!(state.new_group_grid_index, None);
    toggle_fixture_selection(&mut state, 3);
    toggle_fixture_selection(&mut state, 5);
    toggle_fixture_selection(&mut state, 3);
    toggle_fixture_selection(&mut state, 8);
    toggle_fixture_selection(&mut state, 5);
    toggle_fixture_selection(&mut state, 5);
    assert_eq!(state.selected_fixture_ids, vec![8, 5]);
    state.fixture_groups[0].fixture_ids = vec![5, 1];
    state.selected_fixture_ids = vec![8, 5, 8, 2];
    add_selected_to_group(&mut state, 0);
    assert_eq!(state.fixture_groups[0].fixture_ids, vec![5, 1, 8, 2]);
    add_selected_to_group(&mut state, 3);
}

#[test]
fn audio_tracks_are_kept_in_a_list() {
    let mut state = ConsoleState::default();
    add_audio_track(&mut state, "one.ogg".to_string(), "/m/one.ogg".to_string(), 61_000);
    add_audio_track(&mut state, "two.ogg".to_string(), "/m/two.ogg".to_string(), 0);
    add_audio_track(&mut state, "three.ogg".to_string(), "/m/three.ogg".to_string(), 5);
    let ids: Vec<u32> = state.audio_tracks.iter().map(|t| t.id).collect();
    assert_eq!(ids, vec![1, 2, 3]);
    assert_eq!(state.audio_tracks[0].duration, 61_000);
    assert_eq!(state.audio_tracks[0].action, AudioAction::NoAction);
    move_track_up(&mut state, 0);
    move_track_down(&mut state, 2);
    move_track_down(&mut state, 9);
    move_track_up(&mut state, 9);
    let ids: Vec<u32> = state.audio_tracks.iter().map(|t| t.id).collect();
    assert_eq!(ids, vec![1, 2, 3]);
    move_track_up(&mut state, 2);
    let ids: Vec<u32> = state.audio_tracks.iter().map(|t| t.id).collect();
    assert_eq!(ids, vec![1, 3, 2]);
    move_track_down(&mut state, 0);
    let ids: Vec<u32> = state.audio_tracks.iter().map(|t| t.id).collect();
    assert_eq!(ids, vec![3, 1, 2]);
    state.selected_audio_track_id = Some(1);
    remove_audio_track(&mut state, 2);
    assert_eq!(state.selected_audio_track_id, Some(1));
    remove_audio_track(&mut state, 1);
    assert_eq!(state.selected_audio_track_id, None);
    let ids: Vec<u32> = state.audio_tracks.iter().map(|t| t.id).collect();
    assert_eq!(ids, vec![3]);
}

#[test]
fn swapping_and_removing_by_id() {
    let mut v = vec![10, 20, 30, 40];
    swap_items(&mut v, 0, 3);
    assert_eq!(v, vec![40, 20, 30, 10]);
    swap_items(&mut v, 2, 1);
    assert_eq!(v, vec![40, 30, 20, 10]);
    swap_items(&mut v, 1, 1);
    assert_eq!(v, vec![40, 30, 20, 10]);
    let mut groups = vec![
        FixtureGroup::new(1, "a".to_string()),
        FixtureGroup::new(1, "b".to_string()),
        FixtureGroup::new(2, "c".to_string()),
        FixtureGroup::new(1, "d".to_string()),
    ];
    remove_keyed(&mut groups, 1);
    assert_eq!(groups.len(), 1);
    assert_eq!(groups[0].name, "c");
}
