//! The state of the console as the operator's surface sees and edits it.

use crate::console::ConsoleCommand;
use crate::dmx_types::{AudioTrack, DMXBufferValue, Fixture, FixtureGroup};
use crate::executor::{dark_frame, new_frame, Executor};
use crate::level::LEVEL_FULL;
use crate::audio::AudioEngine;
use crate::osc::{OSCManager, OSCNaming};
use crate::templates::FixtureTemplateLibrary;
use vstd::prelude::*;

pub use crate::audio::audio_go;

verus! {

/// The pages of the surface.
#[derive(Clone, Copy, Debug, PartialEq, Eq, Structural)]
pub enum Tab {
    DmxConsole,
    Audio,
    MidiOsc,
    Show,
}

impl Default for Tab {
    fn default() -> (t: Tab)
        ensures
            t == Tab::DmxConsole,
    {
        Tab::DmxConsole
    }
}

/// The halves of the lighting page.
#[derive(Clone, Copy, Debug, PartialEq, Eq, Structural)]
pub enum DmxSubTab {
    Executor,
    Fixtures,
}

impl Default for DmxSubTab {
    fn default() -> (t: DmxSubTab)
        ensures
            t == DmxSubTab::Executor,
    {
        DmxSubTab::Executor
    }
}

/// The parts of the fixtures half.
#[derive(Clone, Copy, Debug, PartialEq, Eq, Structural)]
pub enum FixturesTab {
    Creation,
    Grouping,
    Editing,
}

impl Default for FixturesTab {
    fn default() -> (t: FixturesTab)
        ensures
            t == FixturesTab::Creation,
    {
        FixturesTab::Creation
    }
}

/// What the next press on an executor or a cue is taken for.
#[derive(Clone, Copy, Debug, PartialEq, Eq, Structural)]
pub enum EditingState {
    /// Nothing is armed.
    Idle,
    Store,
    Edit,
    Delete,
    Copy,
    Move,
    Label,
    OSCLearn,
}

impl Default for EditingState {
    fn default() -> (s: EditingState)
        ensures
            s == EditingState::Idle,
    {
        EditingState::Idle
    }
}

impl EditingState {
    /// Arms `to` where nothing is armed, and disarms otherwise.
    pub fn reset_if_set(&mut self, to: EditingState)
        ensures
            *final(self) == if *old(self) != EditingState::Idle {
                EditingState::Idle
            } else {
                to
            },
    {
        if self.if_any() {
            *self = EditingState::Idle
        } else {
            *self = to;
        }
    }

    /// Arms `state`.
    pub fn set(&mut self, state: EditingState)
        ensures
            *final(self) == state,
    {
        *self = state;
    }

    /// Disarms whatever is armed.
    pub fn reset(&mut self)
        ensures
            *final(self) == EditingState::Idle,
    {
        *self = EditingState::Idle;
    }

    /// Whether anything is armed.
    pub fn if_any(&self) -> (b: bool)
        ensures
            b == (*self != EditingState::Idle),
    {
        *self != EditingState::Idle
    }

    /// Whether editing is armed.
    pub fn is_edit(&self) -> (b: bool)
        ensures
            b == (*self == EditingState::Edit),
    {
        *self == EditingState::Edit
    }

    /// Whether learning a remote address is armed.
    pub fn is_osc_learn(&self) -> (b: bool)
        ensures
            b == (*self == EditingState::OSCLearn),
    {
        *self == EditingState::OSCLearn
    }

    /// Whether nothing is armed.
    pub fn is_none(&self) -> (b: bool)
        ensures
            b == (*self == EditingState::Idle),
    {
        *self == EditingState::Idle
    }

    /// Whether deleting is armed.
    pub fn is_delete(&self) -> (b: bool)
        ensures
            b == (*self == EditingState::Delete),
    {
        *self == EditingState::Delete
    }

    /// Whether naming is armed.
    pub fn is_label(&self) -> (b: bool)
        ensures
            b == (*self == EditingState::Label),
    {
        *self == EditingState::Label
    }

    /// Whether copying is armed.
    pub fn is_copy(&self) -> (b: bool)
        ensures
            b == (*self == EditingState::Copy),
    {
        *self == EditingState::Copy
    }

    /// Whether moving is armed.
    pub fn is_move(&self) -> (b: bool)
        ensures
            b == (*self == EditingState::Move),
    {
        *self == EditingState::Move
    }

    /// Whether storing is armed.
    pub fn is_store(&self) -> (b: bool)
        ensures
            b == (*self == EditingState::Store),
    {
        *self == EditingState::Store
    }
}

/// Number of executors of a fresh console.
pub const EXECUTOR_COUNT: usize = 10;

/// Everything the console knows. Levels are thousandths.
#[derive(Debug)]
pub struct ConsoleState {
    pub edit_state: EditingState,
    /// The text in the command line.
    pub command_input: String,
    /// What the last command failed with, if it failed.
    pub command_error: Option<String>,
    /// The commands that were carried out, oldest first.
    pub command_history: Vec<ConsoleCommand>,
    /// The frame that was handed to the transport last.
    pub channels: Vec<u8>,
    /// The override values, at most one for a channel.
    pub buffer: Vec<DMXBufferValue>,
    /// Identifier of the cue that is being renamed, if any.
    pub labeling_cue: Option<u32>,
    pub label_buffer: String,
    pub editing_executor: Option<usize>,
    pub delete_confirm_executor: Option<usize>,
    pub show_buffer: bool,
    pub executors: Vec<Executor>,
    pub selected_tab: Tab,
    pub dmx_sub_tab: DmxSubTab,
    pub fixtures_tab: FixturesTab,
    pub fixtures: Vec<Fixture>,
    pub fixture_groups: Vec<FixtureGroup>,
    pub template_library: FixtureTemplateLibrary,
    pub selected_template_id: Option<u32>,
    pub selected_mode_index: usize,
    pub selected_fixture_ids: Vec<u32>,
    pub selected_group_id: Option<u32>,
    pub new_fixture_name: String,
    pub new_fixture_start_channel: String,
    pub new_group_name: String,
    pub new_group_grid_index: Option<usize>,
    pub fixture_error: Option<String>,
    pub master_dimmer: u32,
    pub audio_tracks: Vec<AudioTrack>,
    pub master_volume: u32,
    pub selected_audio_track_id: Option<u32>,
    /// Place of the track that the next start takes.
    pub audio_index: usize,
    /// The engine that keeps the tracks that sound.
    pub audio_engine: Option<AudioEngine>,
    /// Whether the transport answered when it was last asked.
    pub dmx_connected: bool,
    /// What the transport failed with last.
    pub dmx_serial_error: String,
    /// The text that names where to listen, and the receiving end once it
    /// is set up.
    pub osc_manager: (String, Option<OSCManager>),
    pub osc_address_manager: OSCNaming,
}

impl Default for ConsoleState {
    /// A console with ten empty executors, the built-in templates, a dark
    /// frame and both masters at full.
    fn default() -> (s: ConsoleState)
        ensures
            s.executors@.len() == EXECUTOR_COUNT,
            forall|i: int|
                0 <= i < EXECUTOR_COUNT ==> (#[trigger] s.executors@[i]).is_new(i as u32),
            s.channels@ == dark_frame(),
            s.buffer@.len() == 0,
            s.command_history@.len() == 0,
            s.command_error is None,
            s.fixtures@.len() == 0,
            s.fixture_groups@.len() == 0,
            s.audio_tracks@.len() == 0,
            s.template_library.holds_catalog(0, 1),
            s.template_library.next_id == 12,
            s.master_dimmer == LEVEL_FULL,
            s.master_volume == LEVEL_FULL,
            s.audio_index == 0,
            s.audio_engine matches Some(engine) && engine.active().len() == 0 && engine.ended().len()
                == 0 && engine.wf(),
            s.osc_manager.0@.len() == 0,
            s.osc_manager.1 is None,
            !s.dmx_connected,
            s.dmx_serial_error@.len() == 0,
            s.edit_state == EditingState::Idle,
            s.command_input@.len() == 0,
            s.labeling_cue is None,
            s.label_buffer@.len() == 0,
            s.editing_executor is None,
            s.delete_confirm_executor is None,
            !s.show_buffer,
            s.selected_tab == Tab::DmxConsole,
            s.dmx_sub_tab == DmxSubTab::Executor,
            s.fixtures_tab == FixturesTab::Creation,
            s.selected_template_id is None,
            s.selected_mode_index == 0,
            s.selected_fixture_ids@.len() == 0,
            s.selected_group_id is None,
            s.new_fixture_name@.len() == 0,
            s.new_fixture_start_channel@.len() == 0,
            s.new_group_name@.len() == 0,
            s.new_group_grid_index is None,
            s.fixture_error is None,
            s.selected_audio_track_id is None,
            s.template_library.wf(),
            s.osc_address_manager.master_volume@ == "/MasterVolume"@,
            s.osc_address_manager.master_dmx@ == "/MasterDMX"@,
            s.osc_address_manager.executor_identifier@ == "/Executor"@,
            s.osc_address_manager.executor_dimmer@ == "/Dimmer"@,
            s.osc_address_manager.executor_go@ == "/Go"@,
            s.osc_address_manager.executor_go_back@ == "/GoBack"@,
    {
        let mut executors: Vec<Executor> = Vec::new();
        let mut i: usize = 0;
        while i < EXECUTOR_COUNT
            invariant
                i <= EXECUTOR_COUNT,
                executors@.len() == i,
                forall|j: int| 0 <= j < i ==> (#[trigger] executors@[j]).is_new(j as u32),
            decreases EXECUTOR_COUNT - i,
        {
            executors.push(Executor::new(i as u32));
            i = i + 1;
        }
        let audio_engine = match AudioEngine::new() {
            Ok(engine) => Some(engine),
            Err(_) => None,
        };
        ConsoleState {
            edit_state: EditingState::Idle,
            command_input: String::new(),
            command_error: None,
            command_history: Vec::new(),
            channels: new_frame(),
            buffer: Vec::new(),
            labeling_cue: None,
            label_buffer: String::new(),
            editing_executor: None,
            delete_confirm_executor: None,
            show_buffer: false,
            executors,
            selected_tab: Tab::DmxConsole,
            dmx_sub_tab: DmxSubTab::Executor,
            fixtures_tab: FixturesTab::Creation,
            fixtures: Vec::new(),
            fixture_groups: Vec::new(),
            template_library: FixtureTemplateLibrary::new(),
            selected_template_id: None,
            selected_mode_index: 0,
            selected_fixture_ids: Vec::new(),
            selected_group_id: None,
            new_fixture_name: String::new(),
            new_fixture_start_channel: String::new(),
            new_group_name: String::new(),
            new_group_grid_index: None,
            fixture_error: None,
            master_dimmer: LEVEL_FULL,
            audio_tracks: Vec::new(),
            master_volume: LEVEL_FULL,
            selected_audio_track_id: None,
            audio_index: 0,
            audio_engine,
            dmx_connected: false,
            dmx_serial_error: String::new(),
            osc_manager: (String::new(), None),
            osc_address_manager: OSCNaming::default(),
        }
    }
}

} // verus!
