//! The buttons that write the command line: the keypad of the console and
//! the cues of an executor while a move is armed.

use crate::dmx_types::{AudioTrack, FixtureGroup};
use crate::interpreter::{execute_console_command, executed};
use crate::level::{LEVEL_FULL, VOLUME_LIMIT};
use crate::search::{
    first_match, is_first, lemma_first_match_none, lemma_first_match_some,
};
use crate::text::{
    collect_chars, decimal_digits, decimal_string, ends_with, lowered, prefix_ends_with,
    trimmed_end, trimmed_len,
};
use crate::ui::{ConsoleState, EditingState, Tab};
use vstd::prelude::*;
use vstd::string::*;

verus! {

/// `post` is `pre` with `text` in the command line.
pub open spec fn typed(pre: ConsoleState, post: ConsoleState, text: Seq<char>) -> bool {
    &&& post == (ConsoleState { command_input: post.command_input, ..pre })
    &&& post.command_input@ == text
}

/// `post` is `pre` after its command line was sent: the line was carried
/// out and is empty again.
pub open spec fn sent(pre: ConsoleState, post: ConsoleState) -> bool {
    exists|run: ConsoleState| #[trigger] executed(pre, run) && typed(run, post, Seq::empty())
}

/// `post` is `pre` after `text` was put in the command line and sent.
pub open spec fn typed_and_sent(pre: ConsoleState, post: ConsoleState, text: Seq<char>) -> bool {
    exists|written: ConsoleState| #[trigger] typed(pre, written, text) && sent(written, post)
}

/// Sends the command line.
pub fn send_line(state: &mut ConsoleState)
    ensures
        sent(*old(state), *final(state)),
{
    execute_console_command(state);
    let ghost run = *state;
    state.command_input = String::new();
    assert(executed(*old(state), run) && typed(run, *state, Seq::empty()));
}

/// The please button and the enter key: sends the command line unless
/// it is empty.
pub fn press_please(state: &mut ConsoleState)
    ensures
        old(state).command_input@.len() == 0 ==> *final(state) == *old(state),
        old(state).command_input@.len() > 0 ==> sent(*old(state), *final(state)),
{
    if state.command_input.as_str().unicode_len() > 0 {
        send_line(state);
    }
}

fn write_and_send(state: &mut ConsoleState, text: String)
    ensures
        typed_and_sent(*old(state), *final(state), text@),
{
    state.command_input = text;
    let ghost written = *state;
    send_line(state);
    assert(typed(*old(state), written, text@) && sent(written, *state));
}

/// Writes `word` at the end of the command line.
pub fn press_word(state: &mut ConsoleState, word: &str)
    ensures
        typed(*old(state), *final(state), old(state).command_input@ + word@),
{
    state.command_input.append(word);
}

/// The blackout button: sends `b/o`.
pub fn press_blackout(state: &mut ConsoleState)
    ensures
        typed_and_sent(*old(state), *final(state), "b/o"@),
{
    write_and_send(state, String::from_str("b/o"));
}

/// Whether the command line, the blanks at its end aside, ends with
/// `at`.
pub open spec fn waits_for_level(line: Seq<char>) -> bool {
    ends_with(lowered(trimmed_end(line)), "at"@)
}

/// The at button. A line that waits for a level gets the full level
/// and is sent; any other line gets ` at ` written at its end.
pub fn press_at(state: &mut ConsoleState)
    ensures
        waits_for_level(old(state).command_input@) ==> typed_and_sent(
            *old(state),
            *final(state),
            trimmed_end(old(state).command_input@) + " 255"@,
        ),
        !waits_for_level(old(state).command_input@) ==> typed(
            *old(state),
            *final(state),
            old(state).command_input@ + " at "@,
        ),
{
    let chars = collect_chars(state.command_input.as_str());
    let n = trimmed_len(&chars);
    if prefix_ends_with(&chars, n, "at") {
        let mut text = String::from_str(state.command_input.as_str().substring_char(0, n));
        assert(chars@.subrange(0, n as int) =~= chars@.take(n as int));
        text.append(" 255");
        write_and_send(state, text);
    } else {
        state.command_input.append(" at ");
    }
}

/// The dot button: the line is completed with the level 0 and sent. A
/// line that waits for a level gets ` 0`, any other line ` at 0`, each
/// after the blanks at its end are gone.
pub fn press_dot(state: &mut ConsoleState)
    ensures
        typed_and_sent(
            *old(state),
            *final(state),
            trimmed_end(old(state).command_input@) + if waits_for_level(
                old(state).command_input@,
            ) {
                " 0"@
            } else {
                " at 0"@
            },
        ),
{
    let chars = collect_chars(state.command_input.as_str());
    let n = trimmed_len(&chars);
    let mut text = String::from_str(state.command_input.as_str().substring_char(0, n));
    assert(chars@.subrange(0, n as int) =~= chars@.take(n as int));
    if prefix_ends_with(&chars, n, "at") {
        text.append(" 0");
    } else {
        text.append(" at 0");
    }
    write_and_send(state, text);
}

/// Whether the command line is a move that waits for its target: the
/// blanks at its end aside, it ends with `to exec`.
pub open spec fn waits_for_target(line: Seq<char>) -> bool {
    ends_with(lowered(trimmed_end(line)), "to exec"@)
}

/// The beginning of a move of the cue `cue` of the executor at `place`.
pub open spec fn move_from(place: usize, cue: u32) -> Seq<char> {
    "Move Exec "@ + decimal_digits((place + 1) as nat) + " Cue "@ + decimal_digits(cue as nat)
        + " To Exec "@
}

/// The end of a move to the cue `cue` of the executor at `place`.
pub open spec fn move_to(place: usize, cue: u32) -> Seq<char> {
    " "@ + decimal_digits((place + 1) as nat) + " Cue "@ + decimal_digits(cue as nat)
}

/// A press on the cue `cue` of the executor at `place`. It counts only
/// while a move is armed. On a line that waits for its target the cue
/// becomes the target, the move is disarmed and the line is sent; else
/// the cue begins a new move.
pub fn press_cue(state: &mut ConsoleState, place: usize, cue: u32)
    requires
        place < usize::MAX,
    ensures
        old(state).edit_state != EditingState::Move ==> *final(state) == *old(state),
        old(state).edit_state == EditingState::Move && !waits_for_target(
            old(state).command_input@,
        ) ==> typed(*old(state), *final(state), move_from(place, cue)),
        old(state).edit_state == EditingState::Move && waits_for_target(old(state).command_input@)
            ==> typed_and_sent(
            ConsoleState { edit_state: EditingState::Idle, ..*old(state) },
            *final(state),
            trimmed_end(old(state).command_input@) + move_to(place, cue),
        ),
{
    match state.edit_state {
        EditingState::Move => {},
        _ => {
            return ;
        },
    }
    let number = decimal_string(place as u64 + 1);
    let id = decimal_string(cue as u64);
    let chars = collect_chars(state.command_input.as_str());
    let n = trimmed_len(&chars);
    if prefix_ends_with(&chars, n, "to exec") {
        let mut text = String::from_str(state.command_input.as_str().substring_char(0, n));
        assert(chars@.subrange(0, n as int) =~= chars@.take(n as int));
        text.append(" ");
        text.append(number.as_str());
        text.append(" Cue ");
        text.append(id.as_str());
        assert(text@ =~= trimmed_end(old(state).command_input@) + move_to(place, cue));
        state.edit_state = EditingState::Idle;
        write_and_send(state, text);
    } else {
        let mut text = String::from_str("Move Exec ");
        text.append(number.as_str());
        text.append(" Cue ");
        text.append(id.as_str());
        text.append(" To Exec ");
        state.command_input = text;
    }
}

/// The page after `tab`, the first after the last.
pub open spec fn tab_after(tab: Tab) -> Tab {
    match tab {
        Tab::DmxConsole => Tab::Audio,
        Tab::Audio => Tab::MidiOsc,
        Tab::MidiOsc => Tab::Show,
        Tab::Show => Tab::DmxConsole,
    }
}

/// Turns to the next page.
pub fn next_tab(state: &mut ConsoleState)
    ensures
        *final(state) == (ConsoleState { selected_tab: tab_after(old(state).selected_tab), ..*old(state) }),
{
    state.selected_tab = match state.selected_tab {
        Tab::DmxConsole => Tab::Audio,
        Tab::Audio => Tab::MidiOsc,
        Tab::MidiOsc => Tab::Show,
        Tab::Show => Tab::DmxConsole,
    };
}

/// One step of the volume keys, a hundredth.
pub const VOLUME_STEP: u32 = 10;

/// The master volume one step up, held to its limit.
pub open spec fn volume_up(volume: u32) -> u32 {
    if volume + VOLUME_STEP > VOLUME_LIMIT {
        VOLUME_LIMIT
    } else {
        (volume + VOLUME_STEP) as u32
    }
}

/// The master volume one step down, held to silence; a volume above the
/// limit comes down to the limit.
pub open spec fn volume_down(volume: u32) -> u32 {
    if volume < VOLUME_STEP {
        0
    } else if volume - VOLUME_STEP > VOLUME_LIMIT {
        VOLUME_LIMIT
    } else {
        (volume - VOLUME_STEP) as u32
    }
}

/// The volume keys: one step up or down.
pub fn nudge_master_volume(state: &mut ConsoleState, up: bool)
    ensures
        *final(state) == (ConsoleState {
            master_volume: if up {
                volume_up(old(state).master_volume)
            } else {
                volume_down(old(state).master_volume)
            },
            ..*old(state)
        }),
{
    let moved = if up {
        state.master_volume.saturating_add(VOLUME_STEP)
    } else {
        state.master_volume.saturating_sub(VOLUME_STEP)
    };
    state.master_volume = if moved > VOLUME_LIMIT {
        VOLUME_LIMIT
    } else {
        moved
    };
}

/// The key that puts the master volume at full.
pub fn reset_master_volume(state: &mut ConsoleState)
    ensures
        *final(state) == (ConsoleState { master_volume: LEVEL_FULL, ..*old(state) }),
{
    state.master_volume = LEVEL_FULL;
}

/// The groups at the grid place `cell`.
pub open spec fn at_cell(cell: usize) -> spec_fn(FixtureGroup) -> bool {
    |g: FixtureGroup| g.grid_index == Some(cell)
}

/// A press on the grid place `cell`: the first group there is selected
/// with its fixtures; on a free place the selection is given up.
pub fn press_grid_cell(state: &mut ConsoleState, cell: usize)
    ensures
        match first_match(old(state).fixture_groups@, at_cell(cell)) {
            Some(i) => {
                &&& final(state).selected_fixture_ids@ == old(state).fixture_groups@[i].fixture_ids@
                &&& *final(state) == (ConsoleState {
                    selected_group_id: Some(old(state).fixture_groups@[i].id),
                    selected_fixture_ids: final(state).selected_fixture_ids,
                    ..*old(state)
                })
            },
            None => {
                &&& final(state).selected_fixture_ids@ == Seq::<u32>::empty()
                &&& *final(state) == (ConsoleState {
                    selected_group_id: None,
                    selected_fixture_ids: final(state).selected_fixture_ids,
                    ..*old(state)
                })
            },
        },
{
    let mut i: usize = 0;
    while i < state.fixture_groups.len()
        invariant
            i <= state.fixture_groups@.len(),
            *state == *old(state),
            forall|k: int| 0 <= k < i ==> !at_cell(cell)(#[trigger] state.fixture_groups@[k]),
        decreases state.fixture_groups@.len() - i,
    {
        let here = match state.fixture_groups[i].grid_index {
            Some(index) => index == cell,
            None => false,
        };
        if here {
            proof {
                assert(is_first(state.fixture_groups@, at_cell(cell), i as int));
                lemma_first_match_some(state.fixture_groups@, at_cell(cell), i as int);
            }
            state.selected_group_id = Some(state.fixture_groups[i].id);
            state.selected_fixture_ids = state.fixture_groups[i].fixture_ids.clone();
            return ;
        }
        i = i + 1;
    }
    proof {
        lemma_first_match_none(state.fixture_groups@, at_cell(cell));
    }
    state.selected_group_id = None;
    state.selected_fixture_ids = Vec::new();
}

impl AudioTrack {
    /// Where the track ends: its end point, or its length without one.
    pub open spec fn end(&self) -> u32 {
        match self.end_point {
            Some(end) => end,
            None => self.duration,
        }
    }

    /// How long `a` is beyond `b`, `c` and `d` together; nothing where it
    /// is not longer.
    pub open spec fn room(a: u32, b: u32, c: u32, d: u32) -> u32 {
        if a as int - b - c - d < 0 {
            0
        } else {
            (a - b - c - d) as u32
        }
    }

    /// The time that is cut off at the end of the track.
    pub open spec fn cut(&self) -> u32 {
        if self.end() > self.duration {
            0
        } else {
            (self.duration - self.end()) as u32
        }
    }

    fn beyond(a: u32, b: u32, c: u32, d: u32) -> (r: u32)
        ensures
            r == Self::room(a, b, c, d),
    {
        a.saturating_sub(b).saturating_sub(c).saturating_sub(d)
    }

    fn cut_off(&self) -> (r: u32)
        ensures
            r == self.cut(),
    {
        let end = match self.end_point {
            Some(end) => end,
            None => self.duration,
        };
        self.duration.saturating_sub(end)
    }

    /// The longest fade-in that fits: the length of the track less the
    /// fade-out, the start point and what is cut off at the end.
    pub fn fade_in_limit(&self) -> (r: u32)
        ensures
            r == Self::room(self.duration, self.fade_out, self.cut(), self.start_point),
    {
        Self::beyond(self.duration, self.fade_out, self.cut_off(), self.start_point)
    }

    /// The longest fade-out that fits: the length of the track less the
    /// fade-in, the start point and what is cut off at the end.
    pub fn fade_out_limit(&self) -> (r: u32)
        ensures
            r == Self::room(self.duration, self.fade_in, self.start_point, self.cut()),
    {
        Self::beyond(self.duration, self.fade_in, self.start_point, self.cut_off())
    }

    /// The latest start point that fits: the length of the track less
    /// both fades and what is cut off at the end.
    pub fn start_limit(&self) -> (r: u32)
        ensures
            r == Self::room(self.duration, self.fade_in, self.fade_out, self.cut()),
    {
        Self::beyond(self.duration, self.fade_in, self.fade_out, self.cut_off())
    }

    /// The earliest end point that fits: after both fades and the start
    /// point, held to the largest time there is.
    pub fn end_floor(&self) -> (r: u32)
        ensures
            r == if self.fade_in + self.fade_out + self.start_point > u32::MAX {
                u32::MAX
            } else {
                (self.fade_in + self.fade_out + self.start_point) as u32
            },
    {
        self.fade_in.saturating_add(self.fade_out).saturating_add(self.start_point)
    }

    /// Sets where the track ends. A point within the track is kept; one
    /// at its beginning, at its end or beyond means that nothing is cut
    /// off.
    pub fn set_end_point(&mut self, end: u32)
        ensures
            *final(self) == (AudioTrack {
                end_point: if 0 < end < old(self).duration {
                    Some(end)
                } else {
                    None
                },
                ..*old(self)
            }),
    {
        self.end_point = if 0 < end && end < self.duration {
            Some(end)
        } else {
            None
        };
    }
}

} // verus!
