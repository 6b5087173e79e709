use dmx_console::console::{ConsoleCommand, Direction};
use dmx_console::cue_list::{can_shift, find_cue, shift_ids, swap_cues};
use dmx_console::executor::Cue;
use dmx_console::interpreter::{apply_command, execute_console_command};
use dmx_console::ui::ConsoleState;

fn named(id: u32, name: &str) -> Cue {
    let mut c = Cue::new(id);
    c.name = name.to_string();
    c
}

fn state_with(lists: Vec<Vec<Cue>>) -> ConsoleState {
    let mut state = ConsoleState::default();
    for (i, list) in lists.into_iter().enumerate() {
        state.executors[i].cue_list = list;
    }
    state
}

fn look(state: &ConsoleState, exec: usize) -> Vec<(u32, String)> {
    state.executors[exec].cue_list.iter().map(|c| (c.id, c.name.clone())).collect()
}

fn pairs(list: &[(u32, &str)]) -> Vec<(u32, String)> {
    list.iter().map(|(id, name)| (*id, name.to_string())).collect()
}

fn run(state: &mut ConsoleState, line: &str) {
    state.command_input = line.to_string();
    execute_console_command(state);
}

#[test]
fn moved_cue_keeps_its_id_and_colliding_ids_go_up() {
    let mut state = state_with(vec![
        vec![named(1, "a1"), named(2, "a2"), named(3, "a3")],
        vec![named(1, "b1"), named(2, "b2"), named(3, "b3"), named(4, "b4")],
    ]);
    run(&mut state, "move exec 1 cue 3 to exec 2 cue 9");
    assert!(state.command_error.is_none());
    assert_eq!(look(&state, 0), pairs(&[(1, "a1"), (2, "a2")]));
    assert_eq!(
        look(&state, 1),
        pairs(&[(1, "b1"), (2, "b2"), (4, "b3"), (5, "b4"), (3, "a3")])
    );
    assert_eq!(state.command_history.len(), 1);
}

#[test]
fn moved_cue_goes_to_the_place_the_missing_id_stands_for() {
    let mut state = state_with(vec![
        vec![named(7, "a7")],
        vec![named(1, "b1"), named(2, "b2"), named(4, "b4")],
    ]);
    run(&mut state, "move exec 1 cue 7 to exec 2 cue 3");
    assert!(look(&state, 0).is_empty());
    assert_eq!(look(&state, 1), pairs(&[(1, "b1"), (2, "b2"), (7, "a7"), (4, "b4")]));
}

#[test]
fn move_into_an_empty_executor_appends() {
    let mut state = state_with(vec![vec![named(1, "a1"), named(2, "a2")]]);
    run(&mut state, "move exec 1 cue 2 to exec 4 cue 1");
    assert_eq!(look(&state, 0), pairs(&[(1, "a1")]));
    assert_eq!(look(&state, 3), pairs(&[(2, "a2")]));
}

#[test]
fn move_onto_an_existing_cue_exchanges_the_two() {
    let mut state = state_with(vec![
        vec![named(1, "a1"), named(2, "a2"), named(3, "a3")],
        vec![named(1, "b1"), named(2, "b2"), named(3, "b3")],
    ]);
    run(&mut state, "move exec 1 cue 3 to exec 2 cue 2");
    // b2 leaves for executor 1; executor 2 makes room for id 3.
    assert_eq!(look(&state, 1), pairs(&[(1, "b1"), (3, "a3"), (4, "b3")]));
    // executor 1 makes room for id 2 and takes b2 where a3 was.
    assert_eq!(look(&state, 0), pairs(&[(1, "a1"), (3, "a2"), (2, "b2")]));
}

#[test]
fn move_onto_the_cue_with_the_same_id_is_a_plain_exchange() {
    let mut state = state_with(vec![
        vec![named(1, "a1"), named(3, "a3")],
        vec![named(3, "b3"), named(4, "b4")],
    ]);
    run(&mut state, "move exec 1 cue 3 to exec 2 cue 3");
    assert_eq!(look(&state, 0), pairs(&[(1, "a1"), (3, "b3")]));
    assert_eq!(look(&state, 1), pairs(&[(3, "a3"), (4, "b4")]));
}

#[test]
fn move_within_one_executor_swaps() {
    let mut state = state_with(vec![vec![named(1, "a"), named(2, "b"), named(3, "c")]]);
    run(&mut state, "move exec 1 cue 1 to exec 1 cue 3");
    assert_eq!(look(&state, 0), pairs(&[(3, "c"), (2, "b"), (1, "a")]));
    run(&mut state, "move exec 1 cue 2 to exec 1 cue 2");
    assert_eq!(look(&state, 0), pairs(&[(3, "c"), (2, "b"), (1, "a")]));
}

#[test]
fn move_within_one_executor_to_a_missing_id_reinserts() {
    let mut state = state_with(vec![vec![named(1, "a"), named(2, "b"), named(3, "c")]]);
    run(&mut state, "move exec 1 cue 1 to exec 1 cue 9");
    assert_eq!(look(&state, 0), pairs(&[(2, "b"), (3, "c"), (1, "a")]));
    run(&mut state, "move exec 1 cue 1 to exec 1 cue 0");
    assert_eq!(look(&state, 0), pairs(&[(1, "a"), (2, "b"), (3, "c")]));
}

#[test]
fn up_on_the_last_cue_wraps_to_the_first() {
    let mut state =
        state_with(vec![vec![named(1, "a"), named(2, "b"), named(3, "c"), named(4, "d")]]);
    run(&mut state, "move exec 1 cue 4 up");
    assert_eq!(look(&state, 0), pairs(&[(4, "d"), (2, "b"), (3, "c"), (1, "a")]));
}

#[test]
fn down_on_the_first_cue_wraps_to_the_last() {
    let mut state =
        state_with(vec![vec![named(1, "a"), named(2, "b"), named(3, "c"), named(4, "d")]]);
    run(&mut state, "move exec 1 cue 1 down");
    assert_eq!(look(&state, 0), pairs(&[(4, "d"), (2, "b"), (3, "c"), (1, "a")]));
}

#[test]
fn up_and_down_in_the_middle() {
    let mut state = state_with(vec![vec![named(1, "a"), named(2, "b"), named(3, "c")]]);
    apply_command(
        &mut state,
        ConsoleCommand::MoveExecCueDirection { exec_from: 1, cue_from: 2, direction: Direction::Up },
    );
    assert_eq!(look(&state, 0), pairs(&[(1, "a"), (3, "c"), (2, "b")]));
    apply_command(
        &mut state,
        ConsoleCommand::MoveExecCueDirection {
            exec_from: 1,
            cue_from: 3,
            direction: Direction::Down,
        },
    );
    assert_eq!(look(&state, 0), pairs(&[(3, "c"), (1, "a"), (2, "b")]));
    assert_eq!(state.command_history.len(), 2);
}

#[test]
fn a_single_cue_stays_where_it_is() {
    let mut state = state_with(vec![vec![named(5, "only")]]);
    run(&mut state, "move exec 1 cue 5 up");
    run(&mut state, "move exec 1 cue 5 down");
    assert_eq!(look(&state, 0), pairs(&[(5, "only")]));
}

#[test]
fn a_missing_cue_moves_nothing() {
    let mut state = state_with(vec![vec![named(1, "a")], vec![named(1, "b")]]);
    run(&mut state, "move exec 1 cue 8 to exec 2 cue 1");
    run(&mut state, "move exec 1 cue 8 up");
    assert_eq!(look(&state, 0), pairs(&[(1, "a")]));
    assert_eq!(look(&state, 1), pairs(&[(1, "b")]));
    assert!(state.command_error.is_none());
    assert!(state.command_history.is_empty());
}

#[test]
fn a_missing_executor_leaves_a_message() {
    let mut state = state_with(vec![vec![named(1, "a")]]);
    run(&mut state, "move exec 11 cue 1 to exec 2 cue 1");
    assert_eq!(state.command_error.as_deref(), Some("Executor 11 not found"));
    run(&mut state, "move exec 1 cue 1 to exec 40 cue 1");
    assert_eq!(state.command_error.as_deref(), Some("Executor 40 not found"));
    run(&mut state, "move exec 12 cue 1 down");
    assert_eq!(state.command_error.as_deref(), Some("Executor 12 not found"));
    assert_eq!(look(&state, 0), pairs(&[(1, "a")]));
    assert!(state.command_history.is_empty());
}

#[test]
fn executor_zero_stands_for_the_first() {
    let mut state = state_with(vec![vec![named(1, "a"), named(2, "b")]]);
    run(&mut state, "move exec 0 cue 1 to exec 1 cue 2");
    assert_eq!(look(&state, 0), pairs(&[(2, "b"), (1, "a")]));
}

#[test]
fn a_move_that_would_pass_the_largest_id_is_refused() {
    let mut state = state_with(vec![
        vec![named(5, "a5")],
        vec![named(5, "b5"), named(u32::MAX, "top")],
    ]);
    run(&mut state, "move exec 1 cue 5 to exec 2 cue 77");
    assert_eq!(state.command_error.as_deref(), Some("Cue identifiers exhausted"));
    assert_eq!(look(&state, 0), pairs(&[(5, "a5")]));
    assert_eq!(look(&state, 1), pairs(&[(5, "b5"), (u32::MAX, "top")]));
    assert!(state.command_history.is_empty());
}

#[test]
fn cue_list_helpers() {
    let mut list = vec![named(1, "a"), named(2, "b"), named(2, "c"), named(9, "d")];
    assert_eq!(find_cue(&list, 2), Some(1));
    assert_eq!(find_cue(&list, 3), None);
    assert!(can_shift(&list, 2));
    shift_ids(&mut list, 2);
    let ids: Vec<u32> = list.iter().map(|c| c.id).collect();
    assert_eq!(ids, vec![1, 3, 3, 10]);
    shift_ids(&mut list, 77);
    let ids: Vec<u32> = list.iter().map(|c| c.id).collect();
    assert_eq!(ids, vec![1, 3, 3, 10]);
    swap_cues(&mut list, 3, 0);
    let names: Vec<&str> = list.iter().map(|c| c.name.as_str()).collect();
    assert_eq!(names, vec!["d", "b", "c", "a"]);
    list[3].id = u32::MAX;
    assert!(!can_shift(&list, 3));
    assert!(can_shift(&list, 4));
}
