//! The channel model: colors, channel functions, fixture templates and
//! their modes, fixtures, groups, override values and audio tracks.

use crate::text::{collect_chars, hex_char, hex_pair, hex_pair_value, push_hex_byte};
use std::collections::HashMap;
use vstd::prelude::*;
use vstd::string::*;

pub use crate::executor::{Cue, Executor};
pub use crate::templates::FixtureTemplateLibrary;

verus! {

broadcast use vstd::std_specs::hash::group_hash_axioms;

/// Number of channels in an output frame.
pub const DMX_CHANNELS: usize = 512;

/// Color values of a fixture, one channel value each.
#[derive(Clone, Copy, Debug, PartialEq, Eq, Structural)]
pub struct Color {
    pub r: u8,
    pub g: u8,
    pub b: u8,
    pub w: u8,
    pub amber: u8,
    pub uv: u8,
}

impl Default for Color {
    fn default() -> (c: Color)
        ensures
            c == (Color { r: 0, g: 0, b: 0, w: 0, amber: 0, uv: 0 }),
    {
        Color { r: 0, g: 0, b: 0, w: 0, amber: 0, uv: 0 }
    }
}

/// What is left of `s` once its leading `#` signs are gone.
pub open spec fn strip_hashes(s: Seq<char>) -> Seq<char>
    decreases s.len(),
{
    if s.len() > 0 && s[0] == '#' {
        strip_hashes(s.drop_first())
    } else {
        s
    }
}

/// The color that a hexadecimal text denotes: after any leading `#`,
/// exactly six characters, read as three bytes red, green, blue.
pub open spec fn hex_color(s: Seq<char>) -> Option<Color> {
    let h = strip_hashes(s);
    if h.len() != 6 {
        None
    } else {
        match (hex_pair_value(h[0], h[1]), hex_pair_value(h[2], h[3]), hex_pair_value(h[4], h[5])) {
            (Some(r), Some(g), Some(b)) => Some(
                Color { r: r as u8, g: g as u8, b: b as u8, w: 0, amber: 0, uv: 0 },
            ),
            _ => None,
        }
    }
}

proof fn lemma_strip_hashes_at(s: Seq<char>, k: int)
    requires
        0 <= k <= s.len(),
        forall|i: int| 0 <= i < k ==> #[trigger] s[i] == '#',
        k < s.len() ==> s[k] != '#',
    ensures
        strip_hashes(s) == s.skip(k),
    decreases k,
{
    if k == 0 {
        assert(s.skip(0) =~= s);
    } else {
        let r = s.drop_first();
        assert forall|i: int| 0 <= i < k - 1 implies #[trigger] r[i] == '#' by {
            assert(r[i] == s[i + 1]);
        }
        lemma_strip_hashes_at(r, k - 1);
        assert(r.skip(k - 1) =~= s.skip(k));
    }
}

impl Color {
    /// A color of red, green and blue, the other channels dark.
    pub fn from_rgb(r: u8, g: u8, b: u8) -> (c: Color)
        ensures
            c == (Color { r, g, b, w: 0, amber: 0, uv: 0 }),
    {
        Color { r, g, b, w: 0, amber: 0, uv: 0 }
    }

    /// Reads a color from hexadecimal text such as `#FF8000`.
    pub fn from_hex(hex: &str) -> (c: Option<Color>)
        ensures
            c == hex_color(hex@),
    {
        let chars = collect_chars(hex);
        let n = chars.len();
        let mut k: usize = 0;
        while k < n && chars[k] == '#'
            invariant
                k <= n,
                n == chars.len(),
                forall|i: int| 0 <= i < k ==> #[trigger] chars@[i] == '#',
            decreases n - k,
        {
            k = k + 1;
        }
        proof {
            lemma_strip_hashes_at(chars@, k as int);
        }
        if n - k != 6 {
            return None;
        }
        let r = hex_pair(chars[k], chars[k + 1]);
        let g = hex_pair(chars[k + 2], chars[k + 3]);
        let b = hex_pair(chars[k + 4], chars[k + 5]);
        match (r, g, b) {
            (Some(r), Some(g), Some(b)) => Some(Color::from_rgb(r, g, b)),
            _ => None,
        }
    }

    /// The text of `to_hex`: `#` and the upper-case hexadecimal digits of
    /// red, green and blue.
    pub open spec fn hex_text(&self) -> Seq<char> {
        seq![
            '#',
            hex_char((self.r / 16) as nat),
            hex_char((self.r % 16) as nat),
            hex_char((self.g / 16) as nat),
            hex_char((self.g % 16) as nat),
            hex_char((self.b / 16) as nat),
            hex_char((self.b % 16) as nat),
        ]
    }

    /// Writes red, green and blue as hexadecimal text.
    pub fn to_hex(&self) -> (s: String)
        ensures
            s@ == self.hex_text(),
    {
        let mut s = String::from_str("#");
        proof {
            reveal_strlit("#");
        }
        push_hex_byte(&mut s, self.r);
        push_hex_byte(&mut s, self.g);
        push_hex_byte(&mut s, self.b);
        assert(s@ =~= self.hex_text());
        s
    }

    /// Whether red, green, blue or white is lit.
    pub fn has_color(&self) -> (b: bool)
        ensures
            b == (self.r != 0 || self.g != 0 || self.b != 0 || self.w != 0),
    {
        self.r != 0 || self.g != 0 || self.b != 0 || self.w != 0
    }
}

/// The function of one channel of a fixture.
#[derive(Clone, Copy, Debug, PartialEq, Eq, Structural)]
pub enum ChannelType {
    Intensity,
    Red,
    Green,
    Blue,
    White,
    Amber,
    UV,
    ColorWheel,
    CTO,
    CTB,
    Pan,
    PanFine,
    Tilt,
    TiltFine,
    GoboWheel,
    GoboRotation,
    GoboWheel2,
    GoboRotation2,
    Shutter,
    Strobe,
    Zoom,
    Focus,
    Prism,
    Frost,
    Control,
    Speed,
}

impl ChannelType {
    /// Whether this is the function `v`.
    pub fn is(&self, v: ChannelType) -> (b: bool)
        ensures
            b == (*self == v),
    {
        *self == v
    }

    /// The display name of a channel function.
    pub open spec fn spec_name(self) -> Seq<char> {
        match self {
            ChannelType::Intensity => "Intensity"@,
            ChannelType::Red => "Red"@,
            ChannelType::Green => "Green"@,
            ChannelType::Blue => "Blue"@,
            ChannelType::White => "White"@,
            ChannelType::Amber => "Amber"@,
            ChannelType::UV => "UV"@,
            ChannelType::ColorWheel => "Color Wheel"@,
            ChannelType::CTO => "CTO (Warm)"@,
            ChannelType::CTB => "CTB (Cool)"@,
            ChannelType::Pan => "Pan"@,
            ChannelType::PanFine => "Pan Fine"@,
            ChannelType::Tilt => "Tilt"@,
            ChannelType::TiltFine => "Tilt Fine"@,
            ChannelType::GoboWheel => "Gobo Wheel"@,
            ChannelType::GoboRotation => "Gobo Rotation"@,
            ChannelType::GoboWheel2 => "Gobo Wheel 2"@,
            ChannelType::GoboRotation2 => "Gobo Rotation 2"@,
            ChannelType::Shutter => "Shutter"@,
            ChannelType::Strobe => "Strobe"@,
            ChannelType::Zoom => "Zoom"@,
            ChannelType::Focus => "Focus"@,
            ChannelType::Prism => "Prism"@,
            ChannelType::Frost => "Frost"@,
            ChannelType::Control => "Control"@,
            ChannelType::Speed => "Speed"@,
        }
    }

    /// The display name of the function.
    pub fn name(&self) -> (s: &'static str)
        ensures
            s@ == self.spec_name(),
    {
        match self {
            ChannelType::Intensity => "Intensity",
            ChannelType::Red => "Red",
            ChannelType::Green => "Green",
            ChannelType::Blue => "Blue",
            ChannelType::White => "White",
            ChannelType::Amber => "Amber",
            ChannelType::UV => "UV",
            ChannelType::ColorWheel => "Color Wheel",
            ChannelType::CTO => "CTO (Warm)",
            ChannelType::CTB => "CTB (Cool)",
            ChannelType::Pan => "Pan",
            ChannelType::PanFine => "Pan Fine",
            ChannelType::Tilt => "Tilt",
            ChannelType::TiltFine => "Tilt Fine",
            ChannelType::GoboWheel => "Gobo Wheel",
            ChannelType::GoboRotation => "Gobo Rotation",
            ChannelType::GoboWheel2 => "Gobo Wheel 2",
            ChannelType::GoboRotation2 => "Gobo Rotation 2",
            ChannelType::Shutter => "Shutter",
            ChannelType::Strobe => "Strobe",
            ChannelType::Zoom => "Zoom",
            ChannelType::Focus => "Focus",
            ChannelType::Prism => "Prism",
            ChannelType::Frost => "Frost",
            ChannelType::Control => "Control",
            ChannelType::Speed => "Speed",
        }
    }
}

/// One channel of a fixture mode: its function, its offset from the
/// fixture's start channel and its display name.
#[derive(Clone, Debug)]
pub struct ChannelDef {
    pub channel_type: ChannelType,
    pub offset: u8,
    pub name: String,
}

impl ChannelDef {
    /// A channel of the function `channel_type` at `offset`, named after the
    /// function.
    pub fn new(channel_type: ChannelType, offset: u8) -> (d: ChannelDef)
        ensures
            d.channel_type == channel_type,
            d.offset == offset,
            d.name@ == channel_type.spec_name(),
    {
        ChannelDef { name: String::from_str(channel_type.name()), channel_type, offset }
    }
}

/// Short form of `ChannelDef::new`.
pub fn ch(channel_type: ChannelType, offset: u8) -> (d: ChannelDef)
    ensures
        d.channel_type == channel_type,
        d.offset == offset,
        d.name@ == channel_type.spec_name(),
{
    ChannelDef::new(channel_type, offset)
}

/// A channel layout of a fixture template.
#[derive(Clone, Debug)]
pub struct FixtureMode {
    pub name: String,
    pub channels: Vec<ChannelDef>,
}

impl FixtureMode {
    /// A mode of the name `name` with the channels `channels`.
    pub fn new(name: &str, channels: Vec<ChannelDef>) -> (m: FixtureMode)
        ensures
            m.name@ == name@,
            m.channels == channels,
    {
        FixtureMode { name: String::from_str(name), channels }
    }

    /// How many channels the mode has.
    pub fn total_channels(&self) -> (n: usize)
        ensures
            n == self.channels@.len(),
    {
        self.channels.len()
    }
}

/// A kind of fixture with its modes.
#[derive(Clone, Debug)]
pub struct FixtureTemplate {
    pub id: u32,
    pub name: String,
    pub manufacturer: String,
    pub modes: Vec<FixtureMode>,
    pub is_user_defined: bool,
}

impl FixtureTemplate {
    /// A built-in template without modes.
    pub fn new(id: u32, name: &str, manufacturer: &str) -> (t: FixtureTemplate)
        ensures
            t.id == id,
            t.name@ == name@,
            t.manufacturer@ == manufacturer@,
            t.modes@ == Seq::<FixtureMode>::empty(),
            !t.is_user_defined,
    {
        FixtureTemplate {
            id,
            name: String::from_str(name),
            manufacturer: String::from_str(manufacturer),
            modes: Vec::new(),
            is_user_defined: false,
        }
    }

    /// Adds `mode` after the modes that are there.
    pub fn add_mode(&mut self, mode: FixtureMode)
        ensures
            *final(self) == (FixtureTemplate { modes: final(self).modes, ..*old(self) }),
            final(self).modes@ == old(self).modes@.push(mode),
    {
        self.modes.push(mode);
    }

    /// The mode at `index`, if there is one.
    pub fn get_mode(&self, index: usize) -> (m: Option<&FixtureMode>)
        ensures
            index < self.modes@.len() ==> m == Some(&self.modes@[index as int]),
            index >= self.modes@.len() ==> m is None,
    {
        if index < self.modes.len() {
            Some(&self.modes[index])
        } else {
            None
        }
    }

    /// The first mode, if there is one.
    pub fn default_mode(&self) -> (m: Option<&FixtureMode>)
        ensures
            self.modes@.len() > 0 ==> m == Some(&self.modes@[0]),
            self.modes@.len() == 0 ==> m is None,
    {
        self.get_mode(0)
    }

    /// The mode at `index`, if the template has one there.
    pub open spec fn mode_at(&self, index: int) -> Option<FixtureMode> {
        if 0 <= index < self.modes@.len() {
            Some(self.modes@[index])
        } else {
            None
        }
    }
}

/// One channel value of the override buffer. Channel numbers start at 1.
#[derive(Clone, Copy, Debug, PartialEq, Eq, Structural)]
pub struct DMXBufferValue {
    pub chan: usize,
    pub dmx: u8,
}

impl DMXBufferValue {
    /// The value `val` for the channel `chan`.
    pub fn new(chan: usize, val: u8) -> (v: DMXBufferValue)
        ensures
            v == (DMXBufferValue { chan, dmx: val }),
    {
        DMXBufferValue { chan, dmx: val }
    }
}

/// A fixture: a template and mode placed at a start channel, with its
/// current values.
#[derive(Clone, Debug)]
pub struct Fixture {
    pub id: u32,
    pub name: String,
    pub start_channel: usize,
    pub template_id: u32,
    pub mode_index: usize,
    pub intensity: u8,
    pub color: Color,
    pub pan: u16,
    pub tilt: u16,
    pub shutter: u8,
    pub gobo: u8,
    pub zoom: u8,
    pub focus: u8,
    /// Values of the channels that no field stands for, by offset.
    pub custom_values: HashMap<usize, u8>,
}

impl Fixture {
    /// The fixture is as `new` makes it: dark and without color, pan,
    /// tilt, zoom and focus in the middle, shutter and gobo at 0, and no
    /// other values.
    pub open spec fn is_new(
        &self,
        id: u32,
        name: String,
        start_channel: usize,
        template_id: u32,
        mode_index: usize,
    ) -> bool {
        &&& self.id == id
        &&& self.name == name
        &&& self.start_channel == start_channel
        &&& self.template_id == template_id
        &&& self.mode_index == mode_index
        &&& self.intensity == 0
        &&& self.color == (Color { r: 0, g: 0, b: 0, w: 0, amber: 0, uv: 0 })
        &&& self.pan == 128
        &&& self.tilt == 128
        &&& self.shutter == 0
        &&& self.gobo == 0
        &&& self.zoom == 128
        &&& self.focus == 128
        &&& self.custom_values@ == Map::<usize, u8>::empty()
    }

    /// A fixture that is dark, closed and centred.
    pub fn new(id: u32, name: String, start_channel: usize, template_id: u32, mode_index: usize) -> (f:
        Fixture)
        ensures
            f.is_new(id, name, start_channel, template_id, mode_index),
    {
        Fixture {
            id,
            name,
            start_channel,
            template_id,
            mode_index,
            color: Color::default(),
            pan: 128,
            tilt: 128,
            shutter: 0,
            gobo: 0,
            zoom: 128,
            focus: 128,
            custom_values: HashMap::new(),
            intensity: 0,
        }
    }

    /// The value that this fixture gives to a channel of function `kind`
    /// at `offset`.
    pub open spec fn channel_value(&self, kind: ChannelType, offset: u8) -> u8 {
        match kind {
            ChannelType::Intensity => self.intensity,
            ChannelType::Red => self.color.r,
            ChannelType::Green => self.color.g,
            ChannelType::Blue => self.color.b,
            ChannelType::White => self.color.w,
            ChannelType::Amber => self.color.amber,
            ChannelType::UV => self.color.uv,
            ChannelType::Pan => (self.pan / 256) as u8,
            ChannelType::PanFine => (self.pan % 256) as u8,
            ChannelType::Tilt => (self.tilt / 256) as u8,
            ChannelType::TiltFine => (self.tilt % 256) as u8,
            ChannelType::Shutter => self.shutter,
            ChannelType::Strobe => self.shutter,
            ChannelType::GoboWheel => self.gobo,
            ChannelType::Zoom => self.zoom,
            ChannelType::Focus => self.focus,
            _ => if self.custom_values@.contains_key(offset as usize) {
                self.custom_values@[offset as usize]
            } else {
                0u8
            },
        }
    }

    fn value_for(&self, kind: ChannelType, offset: u8) -> (v: u8)
        ensures
            v == self.channel_value(kind, offset),
    {
        match kind {
            ChannelType::Intensity => self.intensity,
            ChannelType::Red => self.color.r,
            ChannelType::Green => self.color.g,
            ChannelType::Blue => self.color.b,
            ChannelType::White => self.color.w,
            ChannelType::Amber => self.color.amber,
            ChannelType::UV => self.color.uv,
            ChannelType::Pan => (self.pan / 256) as u8,
            ChannelType::PanFine => (self.pan % 256) as u8,
            ChannelType::Tilt => (self.tilt / 256) as u8,
            ChannelType::TiltFine => (self.tilt % 256) as u8,
            ChannelType::Shutter => self.shutter,
            ChannelType::Strobe => self.shutter,
            ChannelType::GoboWheel => self.gobo,
            ChannelType::Zoom => self.zoom,
            ChannelType::Focus => self.focus,
            _ => {
                let key: usize = offset as usize;
                match self.custom_values.get(&key) {
                    Some(v) => *v,
                    None => 0,
                }
            },
        }
    }

    /// The values of a mode's channels laid out by offset: the first
    /// `count` channel definitions written in order into `frame`, a later
    /// one over an earlier one at the same offset, one whose offset lies
    /// outside the frame left out.
    pub open spec fn laid_out(&self, defs: Seq<ChannelDef>, count: int, frame: Seq<u8>) -> Seq<u8>
        decreases count,
    {
        if count <= 0 {
            frame
        } else {
            let before = self.laid_out(defs, count - 1, frame);
            let d = defs[count - 1];
            if (d.offset as int) < before.len() {
                before.update(d.offset as int, self.channel_value(d.channel_type, d.offset))
            } else {
                before
            }
        }
    }

    /// The values of this fixture's own channels in the template's mode:
    /// one per channel of the mode, empty where the template has no such
    /// mode.
    pub open spec fn dmx_values(&self, template: &FixtureTemplate) -> Seq<u8> {
        match template.mode_at(self.mode_index as int) {
            Some(mode) => self.laid_out(
                mode.channels@,
                mode.channels@.len() as int,
                Seq::new(mode.channels@.len(), |i: int| 0u8),
            ),
            None => Seq::empty(),
        }
    }

    /// The values of the fixture's own channels, by offset.
    pub fn get_dmx_values(&self, template: &FixtureTemplate) -> (values: Vec<u8>)
        ensures
            values@ == self.dmx_values(template),
    {
        match template.get_mode(self.mode_index) {
            Some(mode) => {
                let n = mode.total_channels();
                let mut values: Vec<u8> = vec![0u8; n];
                let ghost zero = values@;
                assert(zero =~= Seq::new(mode.channels@.len(), |i: int| 0u8));
                let mut i: usize = 0;
                while i < n
                    invariant
                        i <= n,
                        n == mode.channels@.len(),
                        values@.len() == n,
                        values@ == self.laid_out(mode.channels@, i as int, zero),
                    decreases n - i,
                {
                    let kind = mode.channels[i].channel_type;
                    let offset = mode.channels[i].offset;
                    let value = self.value_for(kind, offset);
                    if (offset as usize) < n {
                        values[offset as usize] = value;
                    }
                    i = i + 1;
                }
                values
            },
            None => Vec::new(),
        }
    }

    /// The frame channel of a channel definition: the start channel plus
    /// the offset, held to the largest number the machine counts to.
    pub open spec fn frame_channel(&self, offset: u8) -> usize {
        if self.start_channel as int + offset as int > usize::MAX as int {
            usize::MAX
        } else {
            (self.start_channel + offset) as usize
        }
    }

    /// This fixture's channels as override values: for each channel of the
    /// mode, in order, its function with its frame channel and value.
    pub open spec fn as_buffer(&self, template: &FixtureTemplate) -> Seq<(ChannelType, DMXBufferValue)> {
        match template.mode_at(self.mode_index as int) {
            Some(mode) => Seq::new(
                mode.channels@.len(),
                |i: int|
                    (
                        mode.channels@[i].channel_type,
                        DMXBufferValue {
                            chan: self.frame_channel(mode.channels@[i].offset),
                            dmx: self.channel_value(
                                mode.channels@[i].channel_type,
                                mode.channels@[i].offset,
                            ),
                        },
                    ),
            ),
            None => Seq::empty(),
        }
    }

    /// The fixture's channels as override values with their functions.
    pub fn get_fixture_as_buffer(&self, template: &FixtureTemplate) -> (values: Vec<
        (ChannelType, DMXBufferValue),
    >)
        ensures
            values@ == self.as_buffer(template),
    {
        match template.get_mode(self.mode_index) {
            Some(mode) => {
                let n = mode.total_channels();
                let mut values: Vec<(ChannelType, DMXBufferValue)> = Vec::new();
                let mut i: usize = 0;
                while i < n
                    invariant
                        i <= n,
                        n == mode.channels@.len(),
                        values@.len() == i,
                        forall|j: int|
                            0 <= j < i ==> #[trigger] values@[j] == self.as_buffer(template)[j],
                        template.mode_at(self.mode_index as int) == Some(*mode),
                    decreases n - i,
                {
                    let kind = mode.channels[i].channel_type;
                    let offset = mode.channels[i].offset;
                    let value = self.value_for(kind, offset);
                    let chan = self.start_channel.saturating_add(offset as usize);
                    values.push((kind, DMXBufferValue::new(chan, value)));
                    i = i + 1;
                }
                assert(values@ =~= self.as_buffer(template));
                values
            },
            None => Vec::new(),
        }
    }
}

/// Fixtures that are handled as one.
#[derive(Clone, Debug)]
pub struct FixtureGroup {
    pub id: u32,
    pub name: String,
    pub fixture_ids: Vec<u32>,
    pub grid_index: Option<usize>,
}

impl FixtureGroup {
    /// A group without fixtures and without a place on the grid.
    pub fn new(id: u32, name: String) -> (g: FixtureGroup)
        ensures
            g.id == id,
            g.name == name,
            g.fixture_ids@ == Seq::<u32>::empty(),
            g.grid_index is None,
    {
        FixtureGroup { id, name, fixture_ids: Vec::new(), grid_index: None }
    }
}

/// What happens once an audio track has played to its end.
#[derive(Clone, Copy, Debug, PartialEq, Eq, Structural)]
pub enum AudioAction {
    /// Nothing follows.
    NoAction,
    /// The next track starts when this one ends.
    Follow,
    /// The next track starts together with this one.
    Continue,
}

/// An audio track of the show. Times are milliseconds, the volume a level.
#[derive(Clone, Debug)]
pub struct AudioTrack {
    pub id: u32,
    pub name: String,
    pub file_path: String,
    pub fade_in: u32,
    pub fade_out: u32,
    pub start_point: u32,
    pub end_point: Option<u32>,
    pub volume: u32,
    pub duration: u32,
    pub action: AudioAction,
}

impl AudioTrack {
    /// A track at full volume, without fades, that plays from its beginning
    /// and is followed by nothing.
    pub fn new(id: u32, name: String, file_path: String) -> (t: AudioTrack)
        ensures
            t == (AudioTrack {
                id,
                name,
                file_path,
                fade_in: 0,
                fade_out: 0,
                start_point: 0,
                end_point: None,
                volume: crate::level::LEVEL_FULL,
                duration: 0,
                action: AudioAction::NoAction,
            }),
    {
        AudioTrack {
            id,
            name,
            file_path,
            fade_in: 0,
            fade_out: 0,
            start_point: 0,
            end_point: None,
            volume: crate::level::LEVEL_FULL,
            duration: 0,
            action: AudioAction::NoAction,
        }
    }
}

} // verus!
