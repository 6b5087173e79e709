//! What the operator's buttons do to the console's state: arming and
//! disarming modes, storing and deleting cues, naming them, patching
//! fixtures, grouping them, and keeping the list of audio tracks.

use crate::console::ConsoleCommand;
use crate::cue_list::{find_cue, has_id};
use crate::dmx_types::{AudioTrack, DMXBufferValue, Fixture, FixtureGroup, DMX_CHANNELS};
use crate::executor::{dark_frame, with_stored, Cue, Executor};
use crate::listing::{exchanged_places, remove_keyed, swap_items, without_key};
use crate::osc::advanced;
use crate::search::first_match;
use crate::templates::{template_with, FixtureTemplateLibrary};
use crate::text::{collect_chars, decimal_digits, decimal_string, number_in, parse_number};
use crate::ui::{ConsoleState, EditingState};
use vstd::prelude::*;
use vstd::string::*;

verus! {

/// The mode after one of the mode buttons was pressed: the button's mode,
/// or none where that mode was armed already.
pub open spec fn mode_after(current: EditingState, button: EditingState) -> EditingState {
    if current == button {
        EditingState::Idle
    } else {
        button
    }
}

/// A press on the button of the mode `button`.
pub fn press_mode_button(state: &mut ConsoleState, button: EditingState)
    ensures
        *final(state) == (ConsoleState {
            edit_state: mode_after(old(state).edit_state, button),
            ..*old(state)
        }),
{
    if state.edit_state == button {
        state.edit_state = EditingState::Idle;
    } else {
        state.edit_state = button;
    }
}

/// A press on the store button: with values in the buffer, storing is
/// armed where no mode was, and any mode is disarmed; with an empty
/// buffer nothing happens.
pub fn press_store_button(state: &mut ConsoleState)
    ensures
        *final(state) == (ConsoleState {
            edit_state: if old(state).buffer@.len() == 0 {
                old(state).edit_state
            } else if old(state).edit_state == EditingState::Idle {
                EditingState::Store
            } else {
                EditingState::Idle
            },
            ..*old(state)
        }),
{
    if !state.buffer.is_empty() {
        state.edit_state.reset_if_set(EditingState::Store);
    }
}

/// A press on the clear button: a buffer with values is emptied, which
/// the history records; with an empty buffer the mode is disarmed.
pub fn press_clear_button(state: &mut ConsoleState)
    ensures
        old(state).buffer@.len() == 0 ==> *final(state) == (ConsoleState {
            edit_state: EditingState::Idle,
            ..*old(state)
        }),
        old(state).buffer@.len() > 0 ==> {
            &&& final(state).buffer@ == Seq::<DMXBufferValue>::empty()
            &&& final(state).command_history@ == old(state).command_history@.push(
                ConsoleCommand::Clear,
            )
            &&& *final(state) == (ConsoleState {
                buffer: final(state).buffer,
                command_history: final(state).command_history,
                ..*old(state)
            })
        },
{
    if !state.buffer.is_empty() {
        state.command_history.push(ConsoleCommand::Clear);
        state.buffer.clear();
    } else {
        state.edit_state.reset();
    }
}

/// `post` are the executors `pre` with the one at `i` replaced by one
/// that has a new cue at the end of its list.
pub open spec fn one_stored(pre: Seq<Executor>, post: Seq<Executor>, i: int, buffer: Seq<
    DMXBufferValue,
>) -> bool {
    &&& post.len() == pre.len()
    &&& forall|k: int| 0 <= k < pre.len() && k != i ==> #[trigger] post[k] == pre[k]
    &&& post[i] == (Executor { cue_list: post[i].cue_list, ..pre[i] })
    &&& post[i].cue_list@.len() == pre[i].cue_list@.len() + 1
    &&& post[i].cue_list@.drop_last() == pre[i].cue_list@
    &&& post[i].cue_list@.last().id == pre[i].fresh_cue_id()
    &&& post[i].cue_list@.last().name@ == "Cue "@ + decimal_digits(pre[i].fresh_cue_id() as nat)
    &&& post[i].cue_list@.last().fade_time == 0
    &&& post[i].cue_list@.last().delay == 0
    &&& post[i].cue_list@.last().levels@ == with_stored(dark_frame(), buffer, buffer.len() as int)
}

/// Stores the buffer as a new cue of the executor at `place`, empties the
/// buffer and disarms the mode. Without such an executor nothing happens.
pub fn store_to_executor(state: &mut ConsoleState, place: usize)
    ensures
        place >= old(state).executors@.len() ==> *final(state) == *old(state),
        place < old(state).executors@.len() ==> {
            &&& one_stored(
                old(state).executors@,
                final(state).executors@,
                place as int,
                old(state).buffer@,
            )
            &&& final(state).buffer@ == Seq::<DMXBufferValue>::empty()
            &&& *final(state) == (ConsoleState {
                executors: final(state).executors,
                buffer: final(state).buffer,
                edit_state: EditingState::Idle,
                ..*old(state)
            })
        },
{
    if place < state.executors.len() {
        state.executors[place].store(&state.buffer);
        state.buffer.clear();
        state.edit_state.reset();
    }
}

/// What a press on the go button of the executor at `place` does, by the
/// mode that is armed: store the buffer, open the executor for editing or
/// naming, ask whether to delete its cues, or go to the next cue.
pub open spec fn go_pressed(pre: ConsoleState, place: usize, now: u64, post: ConsoleState) -> bool {
    if place >= pre.executors@.len() {
        post == pre
    } else {
        match pre.edit_state {
            EditingState::Store => {
                &&& one_stored(pre.executors@, post.executors@, place as int, pre.buffer@)
                &&& post.buffer@ == Seq::<DMXBufferValue>::empty()
                &&& post == (ConsoleState {
                    executors: post.executors,
                    buffer: post.buffer,
                    edit_state: EditingState::Idle,
                    ..pre
                })
            },
            EditingState::Edit => post == (ConsoleState { editing_executor: Some(place), ..pre }),
            EditingState::Label => post == (ConsoleState { editing_executor: Some(place), ..pre }),
            EditingState::Delete => post == (ConsoleState {
                delete_confirm_executor: Some(place),
                ..pre
            }),
            _ => stepped_at(pre, place, false, now, post),
        }
    }
}

/// `post` is `pre` with the executor at `place` gone on, or back.
pub open spec fn stepped_at(
    pre: ConsoleState,
    place: usize,
    back: bool,
    now: u64,
    post: ConsoleState,
) -> bool {
    &&& post == (ConsoleState { executors: post.executors, ..pre })
    &&& post.executors@.len() == pre.executors@.len()
    &&& forall|k: int|
        0 <= k < pre.executors@.len() && k != place ==> #[trigger] post.executors@[k]
            == pre.executors@[k]
    &&& advanced(pre.executors@[place as int], post.executors@[place as int], back, now)
}

/// A press on the go button of the executor at `place` at the instant
/// `now`.
pub fn press_go(state: &mut ConsoleState, place: usize, now: u64)
    ensures
        go_pressed(*old(state), place, now, *final(state)),
{
    if place >= state.executors.len() {
        return ;
    }
    match state.edit_state {
        EditingState::Store => {
            store_to_executor(state, place);
        },
        EditingState::Edit => {
            state.editing_executor = Some(place);
        },
        EditingState::Label => {
            state.editing_executor = Some(place);
        },
        EditingState::Delete => {
            state.delete_confirm_executor = Some(place);
        },
        _ => {
            state.executors[place].go_at(now);
        },
    }
}

/// A press on the back button of the executor at `place` at the instant
/// `now`: with deleting armed it asks whether to delete the executor's
/// cues, else the executor goes back one cue.
pub fn press_back(state: &mut ConsoleState, place: usize, now: u64)
    ensures
        place >= old(state).executors@.len() ==> *final(state) == *old(state),
        place < old(state).executors@.len() && old(state).edit_state == EditingState::Delete
            ==> *final(state) == (ConsoleState {
            delete_confirm_executor: Some(place),
            ..*old(state)
        }),
        place < old(state).executors@.len() && old(state).edit_state != EditingState::Delete
            ==> stepped_at(*old(state), place, true, now, *final(state)),
{
    if place >= state.executors.len() {
        return ;
    }
    match state.edit_state {
        EditingState::Delete => {
            state.delete_confirm_executor = Some(place);
        },
        _ => {
            state.executors[place].go_back_at(now);
        },
    }
}

/// Deletes all cues of the executor at `place` after the operator said
/// yes: the question is gone and the mode disarmed. Without such an
/// executor only that happens.
pub fn confirm_delete(state: &mut ConsoleState, place: usize)
    ensures
        final(state).executors@.len() == old(state).executors@.len(),
        forall|k: int|
            0 <= k < old(state).executors@.len() && k != place ==> #[trigger] final(state).executors@[k] == old(state).executors@[k],
        place < old(state).executors@.len() ==> {
            let before = old(state).executors@[place as int];
            let after = final(state).executors@[place as int];
            &&& after.cue_list@ == Seq::<Cue>::empty()
            &&& after.stored_channels@ == dark_frame()
            &&& after == (Executor {
                cue_list: after.cue_list,
                stored_channels: after.stored_channels,
                current_cue: None,
                current_cue_index: 0,
                ..before
            })
        },
        *final(state) == (ConsoleState {
            executors: final(state).executors,
            delete_confirm_executor: None,
            edit_state: EditingState::Idle,
            ..*old(state)
        }),
{
    if place < state.executors.len() {
        state.executors[place].clear_cues();
    }
    state.delete_confirm_executor = None;
    state.edit_state = EditingState::Idle;
}

/// Takes the question whether to delete back.
pub fn cancel_delete(state: &mut ConsoleState)
    ensures
        *final(state) == (ConsoleState { delete_confirm_executor: None, ..*old(state) }),
{
    state.delete_confirm_executor = None;
}

/// The cue that a name can be saved to: the first cue of the executor at
/// `place` with the identifier that is being named, while naming is
/// armed.
pub open spec fn cue_to_name(state: ConsoleState, place: usize) -> Option<int> {
    if place < state.executors@.len() && state.edit_state == EditingState::Label {
        match state.labeling_cue {
            Some(id) => first_match(state.executors@[place as int].cue_list@, has_id(id)),
            None => None,
        }
    } else {
        None
    }
}

/// Saves the name in the naming field to the cue that is being named:
/// the cue gets the text, the field is empty again, and naming is over.
/// Where no cue is being named nothing happens. Returns whether a cue was
/// named.
pub fn save_cue_name(state: &mut ConsoleState, place: usize) -> (saved: bool)
    ensures
        saved == cue_to_name(*old(state), place).is_some(),
        !saved ==> *final(state) == *old(state),
        saved ==> {
            let at = cue_to_name(*old(state), place)->0;
            let before = old(state).executors@[place as int];
            let after = final(state).executors@[place as int];
            &&& final(state).executors@.len() == old(state).executors@.len()
            &&& forall|k: int|
                0 <= k < old(state).executors@.len() && k != place ==> #[trigger] final(state).executors@[k] == old(state).executors@[k]
            &&& after == (Executor { cue_list: after.cue_list, ..before })
            &&& after.cue_list@ == before.cue_list@.update(
                at,
                Cue { name: old(state).label_buffer, ..before.cue_list@[at] },
            )
            &&& final(state).label_buffer@ == Seq::<char>::empty()
            &&& *final(state) == (ConsoleState {
                executors: final(state).executors,
                label_buffer: final(state).label_buffer,
                edit_state: EditingState::Idle,
                labeling_cue: None,
                ..*old(state)
            })
        },
{
    if place >= state.executors.len() {
        return false;
    }
    match state.edit_state {
        EditingState::Label => {},
        _ => {
            return false;
        },
    }
    let id = match state.labeling_cue {
        Some(id) => id,
        None => {
            return false;
        },
    };
    let at = match find_cue(&state.executors[place].cue_list, id) {
        Some(at) => at,
        None => {
            return false;
        },
    };
    let mut name = String::new();
    std::mem::swap(&mut name, &mut state.label_buffer);
    state.executors[place].cue_list[at].name = name;
    state.edit_state = EditingState::Idle;
    state.labeling_cue = None;
    assert(state.executors@[place as int].cue_list@ =~= old(state).executors@[place as int].cue_list@.update(
        at as int,
        Cue {
            name: old(state).label_buffer,
            ..old(state).executors@[place as int].cue_list@[at as int]
        },
    ));
    true
}

/// Takes the first cue with the identifier `id` out of the executor at
/// `place`. Returns whether there was one.
pub fn remove_cue(state: &mut ConsoleState, place: usize, id: u32) -> (removed: bool)
    ensures
        place >= old(state).executors@.len() ==> !removed,
        place < old(state).executors@.len() ==> removed == first_match(
            old(state).executors@[place as int].cue_list@,
            has_id(id),
        ).is_some(),
        !removed ==> *final(state) == *old(state),
        removed ==> {
            let before = old(state).executors@[place as int];
            let after = final(state).executors@[place as int];
            &&& final(state).executors@.len() == old(state).executors@.len()
            &&& forall|k: int|
                0 <= k < old(state).executors@.len() && k != place ==> #[trigger] final(state).executors@[k] == old(state).executors@[k]
            &&& after == (Executor { cue_list: after.cue_list, ..before })
            &&& after.cue_list@ == before.cue_list@.remove(
                first_match(before.cue_list@, has_id(id))->0,
            )
            &&& *final(state) == (ConsoleState { executors: final(state).executors, ..*old(state) })
        },
{
    if place >= state.executors.len() {
        return false;
    }
    match find_cue(&state.executors[place].cue_list, id) {
        Some(at) => {
            state.executors[place].cue_list.remove(at);
            true
        },
        None => false,
    }
}

/// How many channels a fixture of the template `template_id` in the mode
/// `mode_index` takes up; none where the library has no such mode.
pub open spec fn footprint(library: FixtureTemplateLibrary, template_id: u32, mode_index: usize) -> nat {
    match first_match(library.templates@, template_with(template_id)) {
        Some(k) => match library.templates@[k].mode_at(mode_index as int) {
            Some(mode) => mode.channels@.len(),
            None => 0,
        },
        None => 0,
    }
}

/// Whether two stretches of channels, each given by its first channel
/// and its length, have a channel in common.
pub open spec fn overlap(first: int, length: int, other_first: int, other_length: int) -> bool {
    &&& length > 0
    &&& other_length > 0
    &&& first < other_first + other_length
    &&& other_first < first + length
}

/// Whether a fixture from `start` on, `length` channels long, would share
/// a channel with a fixture that is there.
pub open spec fn collides(state: ConsoleState, start: usize, length: nat) -> bool {
    exists|i: int|
        0 <= i < state.fixtures@.len() && overlap(
            start as int,
            length as int,
            (#[trigger] state.fixtures@[i]).start_channel as int,
            footprint(
                state.template_library,
                state.fixtures@[i].template_id,
                state.fixtures@[i].mode_index,
            ) as int,
        )
}

/// The start channel that the patch field asks for: its number, or 1
/// where the text is no number.
pub open spec fn wanted_start(text: Seq<char>) -> usize {
    match number_in(text, usize::MAX as nat) {
        Some(n) => n as usize,
        None => 1,
    }
}

/// The last channel of a stretch that is not empty, held to the largest
/// number the machine counts to.
pub open spec fn last_channel(start: usize, length: nat) -> usize {
    if start + length - 1 > usize::MAX {
        usize::MAX
    } else {
        (start + length - 1) as usize
    }
}

/// The message of a collision.
pub open spec fn collision_text(start: usize, length: nat) -> Seq<char> {
    "Channel collision! Channels "@ + decimal_digits(start as nat) + " to "@ + decimal_digits(
        last_channel(start, length) as nat,
    ) + " overlap with existing fixture"@
}

/// The identifier of the next fixture, group or track of a list of
/// `count`: one more, held to the largest identifier.
pub open spec fn next_number(count: nat) -> u32 {
    if count >= u32::MAX {
        u32::MAX
    } else {
        (count + 1) as u32
    }
}

fn number_after(count: usize) -> (id: u32)
    ensures
        id == next_number(count as nat),
{
    if count >= u32::MAX as usize {
        u32::MAX
    } else {
        (count + 1) as u32
    }
}

fn footprint_of(library: &FixtureTemplateLibrary, template_id: u32, mode_index: usize) -> (n: usize)
    ensures
        n == footprint(*library, template_id, mode_index),
{
    match library.get_template(template_id) {
        Some(template) => match template.get_mode(mode_index) {
            Some(mode) => mode.total_channels(),
            None => 0,
        },
        None => 0,
    }
}

fn overlaps(first: usize, length: usize, other_first: usize, other_length: usize) -> (r: bool)
    ensures
        r == overlap(first as int, length as int, other_first as int, other_length as int),
{
    let reaches = if first >= other_first {
        first - other_first < other_length
    } else {
        true
    };
    let reached = if other_first >= first {
        other_first - first < length
    } else {
        true
    };
    length > 0 && other_length > 0 && reaches && reached
}

fn has_collision(state: &ConsoleState, start: usize, length: usize) -> (r: bool)
    ensures
        r == collides(*state, start, length as nat),
{
    let mut i: usize = 0;
    while i < state.fixtures.len()
        invariant
            i <= state.fixtures@.len(),
            forall|k: int|
                0 <= k < i ==> !overlap(
                    start as int,
                    length as int,
                    (#[trigger] state.fixtures@[k]).start_channel as int,
                    footprint(
                        state.template_library,
                        state.fixtures@[k].template_id,
                        state.fixtures@[k].mode_index,
                    ) as int,
                ),
        decreases state.fixtures@.len() - i,
    {
        let f = &state.fixtures[i];
        let taken = footprint_of(&state.template_library, f.template_id, f.mode_index);
        if overlaps(start, length, f.start_channel, taken) {
            return true;
        }
        i = i + 1;
    }
    false
}

/// What patching does (see `add_fixture`).
pub open spec fn patched(pre: ConsoleState, post: ConsoleState) -> bool {
    match pre.selected_template_id {
        None => post == pre,
        Some(template_id) => {
            let start = wanted_start(pre.new_fixture_start_channel@);
            let length = footprint(pre.template_library, template_id, pre.selected_mode_index);
            if collides(pre, start, length) {
                &&& post == (ConsoleState { fixture_error: post.fixture_error, ..pre })
                &&& post.fixture_error matches Some(m)
                &&& m@ == collision_text(start, length)
            } else if pre.new_fixture_name@.len() > 0 && 1 <= start <= DMX_CHANNELS && length > 0 {
                &&& post.fixtures@.len() == pre.fixtures@.len() + 1
                &&& post.fixtures@.drop_last() == pre.fixtures@
                &&& post.fixtures@.last().is_new(
                    next_number(pre.fixtures@.len()),
                    pre.new_fixture_name,
                    start,
                    template_id,
                    pre.selected_mode_index,
                )
                &&& post.new_fixture_name@ == Seq::<char>::empty()
                &&& post.new_fixture_start_channel@ == Seq::<char>::empty()
                &&& post == (ConsoleState {
                    fixtures: post.fixtures,
                    new_fixture_name: post.new_fixture_name,
                    new_fixture_start_channel: post.new_fixture_start_channel,
                    fixture_error: None,
                    ..pre
                })
            } else {
                post == pre
            }
        },
    }
}

/// Patches a fixture from what the patch fields hold: the selected
/// template and mode, the name and the start channel.
///
/// A fixture that would share a channel with one that is there is
/// refused with a message. Else a fixture with a name, a start channel
/// within the frame and a mode with channels is added at the end, under
/// the next identifier; the name and start channel fields are emptied and
/// the message is gone. In every other case nothing happens.
pub fn add_fixture(state: &mut ConsoleState)
    ensures
        patched(*old(state), *final(state)),
{
    let template_id = match state.selected_template_id {
        Some(id) => id,
        None => {
            return ;
        },
    };
    let chars = collect_chars(state.new_fixture_start_channel.as_str());
    assert(chars@.subrange(0, chars@.len() as int) =~= chars@);
    let start = match parse_number(&chars, 0, chars.len(), usize::MAX as u64) {
        Some(n) => n as usize,
        None => 1,
    };
    let length = footprint_of(&state.template_library, template_id, state.selected_mode_index);
    if has_collision(state, start, length) {
        let mut message = String::from_str("Channel collision! Channels ");
        let from = decimal_string(start as u64);
        message.append(from.as_str());
        message.append(" to ");
        let last = start.saturating_add(length - 1);
        let to = decimal_string(last as u64);
        message.append(to.as_str());
        message.append(" overlap with existing fixture");
        state.fixture_error = Some(message);
        return ;
    }
    if state.new_fixture_name.as_str().unicode_len() > 0 && 1 <= start && start <= DMX_CHANNELS
        && length > 0 {
        let mut name = String::new();
        std::mem::swap(&mut name, &mut state.new_fixture_name);
        let id = number_after(state.fixtures.len());
        let fixture = Fixture::new(id, name, start, template_id, state.selected_mode_index);
        state.fixtures.push(fixture);
        state.new_fixture_start_channel = String::new();
        state.fixture_error = None;
        assert(state.fixtures@.drop_last() =~= old(state).fixtures@);
    }
}

/// Takes the fixtures with the identifier `id` off the patch.
pub fn remove_fixture(state: &mut ConsoleState, id: u32)
    ensures
        final(state).fixtures@ == without_key(old(state).fixtures@, id),
        *final(state) == (ConsoleState { fixtures: final(state).fixtures, ..*old(state) }),
{
    remove_keyed(&mut state.fixtures, id);
}

/// Makes a group from what the group fields hold: with a name in the
/// field, a group of that name and grid place is added at the end, under
/// the next identifier and without fixtures, and the fields are emptied.
/// Without a name nothing happens.
pub fn create_group(state: &mut ConsoleState)
    ensures
        old(state).new_group_name@.len() == 0 ==> *final(state) == *old(state),
        old(state).new_group_name@.len() > 0 ==> {
            &&& final(state).fixture_groups@.len() == old(state).fixture_groups@.len() + 1
            &&& final(state).fixture_groups@.drop_last() == old(state).fixture_groups@
            &&& final(state).fixture_groups@.last().id == next_number(
                old(state).fixture_groups@.len(),
            )
            &&& final(state).fixture_groups@.last().name == old(state).new_group_name
            &&& final(state).fixture_groups@.last().fixture_ids@ == Seq::<u32>::empty()
            &&& final(state).fixture_groups@.last().grid_index == old(state).new_group_grid_index
            &&& final(state).new_group_name@ == Seq::<char>::empty()
            &&& *final(state) == (ConsoleState {
                fixture_groups: final(state).fixture_groups,
                new_group_name: final(state).new_group_name,
                new_group_grid_index: None,
                ..*old(state)
            })
        },
{
    if state.new_group_name.as_str().unicode_len() > 0 {
        let mut name = String::new();
        std::mem::swap(&mut name, &mut state.new_group_name);
        let mut group = FixtureGroup::new(number_after(state.fixture_groups.len()), name);
        group.grid_index = state.new_group_grid_index;
        state.fixture_groups.push(group);
        state.new_group_grid_index = None;
        assert(state.fixture_groups@.drop_last() =~= old(state).fixture_groups@);
    }
}

/// Takes the groups with the identifier `id` away.
pub fn remove_group(state: &mut ConsoleState, id: u32)
    ensures
        final(state).fixture_groups@ == without_key(old(state).fixture_groups@, id),
        *final(state) == (ConsoleState { fixture_groups: final(state).fixture_groups, ..*old(state) }),
{
    remove_keyed(&mut state.fixture_groups, id);
}

/// `members` with those of the first `count` identifiers of `added` put
/// at the end, in order, that it does not hold yet.
pub open spec fn joined(members: Seq<u32>, added: Seq<u32>, count: int) -> Seq<u32>
    decreases count,
{
    if count <= 0 {
        members
    } else {
        let before = joined(members, added, count - 1);
        if before.contains(added[count - 1]) {
            before
        } else {
            before.push(added[count - 1])
        }
    }
}

fn holds(members: &Vec<u32>, id: u32) -> (r: bool)
    ensures
        r == members@.contains(id),
{
    let mut i: usize = 0;
    while i < members.len()
        invariant
            i <= members@.len(),
            forall|k: int| 0 <= k < i ==> members@[k] != id,
        decreases members@.len() - i,
    {
        if members[i] == id {
            return true;
        }
        i = i + 1;
    }
    false
}

/// Puts the selected fixtures into the group at `place`, each once.
/// Without such a group nothing happens.
pub fn add_selected_to_group(state: &mut ConsoleState, place: usize)
    ensures
        place >= old(state).fixture_groups@.len() ==> *final(state) == *old(state),
        place < old(state).fixture_groups@.len() ==> {
            let before = old(state).fixture_groups@[place as int];
            let after = final(state).fixture_groups@[place as int];
            &&& final(state).fixture_groups@.len() == old(state).fixture_groups@.len()
            &&& forall|k: int|
                0 <= k < old(state).fixture_groups@.len() && k != place ==> #[trigger] final(state).fixture_groups@[k] == old(state).fixture_groups@[k]
            &&& after == (FixtureGroup { fixture_ids: after.fixture_ids, ..before })
            &&& after.fixture_ids@ == joined(
                before.fixture_ids@,
                old(state).selected_fixture_ids@,
                old(state).selected_fixture_ids@.len() as int,
            )
            &&& *final(state) == (ConsoleState {
                fixture_groups: final(state).fixture_groups,
                ..*old(state)
            })
        },
{
    if place >= state.fixture_groups.len() {
        return ;
    }
    let ghost before = state.fixture_groups@[place as int];
    let mut i: usize = 0;
    while i < state.selected_fixture_ids.len()
        invariant
            i <= state.selected_fixture_ids@.len(),
            place < old(state).fixture_groups@.len(),
            before == old(state).fixture_groups@[place as int],
            state.fixture_groups@.len() == old(state).fixture_groups@.len(),
            forall|k: int|
                0 <= k < old(state).fixture_groups@.len() && k != place
                    ==> #[trigger] state.fixture_groups@[k] == old(state).fixture_groups@[k],
            state.fixture_groups@[place as int] == (FixtureGroup {
                fixture_ids: state.fixture_groups@[place as int].fixture_ids,
                ..before
            }),
            state.fixture_groups@[place as int].fixture_ids@ == joined(
                before.fixture_ids@,
                old(state).selected_fixture_ids@,
                i as int,
            ),
            *state == (ConsoleState { fixture_groups: state.fixture_groups, ..*old(state) }),
        decreases state.selected_fixture_ids@.len() - i,
    {
        let id = state.selected_fixture_ids[i];
        if !holds(&state.fixture_groups[place].fixture_ids, id) {
            state.fixture_groups[place].fixture_ids.push(id);
        }
        i = i + 1;
    }
}

/// The identifiers other than `id`.
pub open spec fn other_id(id: u32) -> spec_fn(u32) -> bool {
    |x: u32| x != id
}

/// Selects the fixture `id`, or takes it out of the selection where it
/// is selected.
pub fn toggle_fixture_selection(state: &mut ConsoleState, id: u32)
    ensures
        final(state).selected_fixture_ids@ == if old(state).selected_fixture_ids@.contains(id) {
            old(state).selected_fixture_ids@.filter(other_id(id))
        } else {
            old(state).selected_fixture_ids@.push(id)
        },
        *final(state) == (ConsoleState {
            selected_fixture_ids: final(state).selected_fixture_ids,
            ..*old(state)
        }),
{
    if holds(&state.selected_fixture_ids, id) {
        let ghost before = state.selected_fixture_ids@;
        let mut kept: Vec<u32> = Vec::new();
        let mut i: usize = 0;
        proof {
            reveal(Seq::filter);
            assert(before.take(0).filter(other_id(id)) =~= Seq::<u32>::empty());
        }
        while i < state.selected_fixture_ids.len()
            invariant
                i <= before.len(),
                state.selected_fixture_ids@ == before,
                kept@ == before.take(i as int).filter(other_id(id)),
                *state == *old(state),
            decreases before.len() - i,
        {
            proof {
                reveal(Seq::filter);
                assert(before.take(i + 1).drop_last() =~= before.take(i as int));
            }
            if state.selected_fixture_ids[i] != id {
                kept.push(state.selected_fixture_ids[i]);
            }
            i = i + 1;
        }
        assert(before.take(i as int) =~= before);
        state.selected_fixture_ids = kept;
    } else {
        state.selected_fixture_ids.push(id);
    }
}

/// Adds a track for the file at `file_path` at the end of the list,
/// under the next identifier, with the length `duration`.
pub fn add_audio_track(state: &mut ConsoleState, name: String, file_path: String, duration: u32)
    ensures
        final(state).audio_tracks@ == old(state).audio_tracks@.push(
            AudioTrack {
                id: next_number(old(state).audio_tracks@.len()),
                name,
                file_path,
                fade_in: 0,
                fade_out: 0,
                start_point: 0,
                end_point: None,
                volume: crate::level::LEVEL_FULL,
                duration,
                action: crate::dmx_types::AudioAction::NoAction,
            },
        ),
        *final(state) == (ConsoleState { audio_tracks: final(state).audio_tracks, ..*old(state) }),
{
    let mut track = AudioTrack::new(number_after(state.audio_tracks.len()), name, file_path);
    track.duration = duration;
    state.audio_tracks.push(track);
}

/// Takes the tracks with the identifier `id` off the list and, where
/// that track was selected, the selection with it.
pub fn remove_audio_track(state: &mut ConsoleState, id: u32)
    ensures
        final(state).audio_tracks@ == without_key(old(state).audio_tracks@, id),
        *final(state) == (ConsoleState {
            audio_tracks: final(state).audio_tracks,
            selected_audio_track_id: if old(state).selected_audio_track_id == Some(id) {
                None
            } else {
                old(state).selected_audio_track_id
            },
            ..*old(state)
        }),
{
    remove_keyed(&mut state.audio_tracks, id);
    match state.selected_audio_track_id {
        Some(selected) => {
            if selected == id {
                state.selected_audio_track_id = None;
            }
        },
        None => {},
    }
}

/// Moves the track at `place` one up in the list; the first stays.
pub fn move_track_up(state: &mut ConsoleState, place: usize)
    ensures
        final(state).audio_tracks@ == if 0 < place < old(state).audio_tracks@.len() {
            exchanged_places(old(state).audio_tracks@, place as int, place - 1)
        } else {
            old(state).audio_tracks@
        },
        *final(state) == (ConsoleState { audio_tracks: final(state).audio_tracks, ..*old(state) }),
{
    if 0 < place && place < state.audio_tracks.len() {
        swap_items(&mut state.audio_tracks, place, place - 1);
    }
}

/// Moves the track at `place` one down in the list; the last stays.
pub fn move_track_down(state: &mut ConsoleState, place: usize)
    ensures
        final(state).audio_tracks@ == if place + 1 < old(state).audio_tracks@.len() {
            exchanged_places(old(state).audio_tracks@, place as int, place + 1)
        } else {
            old(state).audio_tracks@
        },
        *final(state) == (ConsoleState { audio_tracks: final(state).audio_tracks, ..*old(state) }),
{
    if place < state.audio_tracks.len() && place + 1 < state.audio_tracks.len() {
        swap_items(&mut state.audio_tracks, place, place + 1);
    }
}

} // verus!
