//! The command line of the console: a one-line language for setting
//! channels and fixtures, blacking out, clearing and moving cues.
//!
//! A command is a sequence of blank-separated words, read without regard
//! to case:
//!
//! ```text
//! blackout | b/o | bo
//! clear | clr
//! chan N at V
//! fix N at V
//! fix N color rV gV bV wV
//! move exec N cue N to exec N cue N
//! move exec N cue N up | down
//! ```
//!
//! `N` is a decimal number and `V` one from 0 to 255. Words after a
//! complete `chan`, `fix` or `move` command are passed over.

use crate::dmx_types::DMX_CHANNELS;
use crate::text::{
    collect_chars, decimal_digits, decimal_string, lowered, number_in, parse_number, span_is,
    spans_cover, split_words, words,
};
use vstd::prelude::*;
use vstd::string::*;

pub use crate::interpreter::execute_console_command;

verus! {

/// Why a line is no command.
#[derive(Clone, Debug)]
pub enum ConsoleError {
    /// The line has none of the known shapes; it is held as given.
    UnknownCommand(String),
    /// The word that should be a channel from 1 to the second field.
    InvalidChannel(String, usize),
    /// The word that should be a fixture identifier.
    InvalidFixtureId(String),
    /// The word that should be a level from 0 to 255.
    InvalidLevel(String),
    /// The line breaks off before its command is complete; it is held as
    /// given.
    MissingArgs(String),
}

/// A `ConsoleError` with its texts as sequences of characters.
pub enum ConsoleErrorView {
    UnknownCommand(Seq<char>),
    InvalidChannel(Seq<char>, usize),
    InvalidFixtureId(Seq<char>),
    InvalidLevel(Seq<char>),
    MissingArgs(Seq<char>),
}

impl View for ConsoleError {
    type V = ConsoleErrorView;

    open spec fn view(&self) -> ConsoleErrorView {
        match self {
            ConsoleError::UnknownCommand(s) => ConsoleErrorView::UnknownCommand(s@),
            ConsoleError::InvalidChannel(s, n) => ConsoleErrorView::InvalidChannel(s@, *n),
            ConsoleError::InvalidFixtureId(s) => ConsoleErrorView::InvalidFixtureId(s@),
            ConsoleError::InvalidLevel(s) => ConsoleErrorView::InvalidLevel(s@),
            ConsoleError::MissingArgs(s) => ConsoleErrorView::MissingArgs(s@),
        }
    }
}

impl ConsoleErrorView {
    /// The sentence that tells a user of the error.
    pub open spec fn message(self) -> Seq<char> {
        match self {
            ConsoleErrorView::UnknownCommand(s) => "Unknown command: "@ + s,
            ConsoleErrorView::InvalidChannel(s, n) => "Invalid channel: "@ + s
                + ". Must be between 1 and "@ + decimal_digits(n as nat),
            ConsoleErrorView::InvalidFixtureId(s) => "Invalid fixture id: "@ + s,
            ConsoleErrorView::InvalidLevel(s) => "Invalid level: "@ + s
                + ". Must be between 0 and 255"@,
            ConsoleErrorView::MissingArgs(s) => "Missing arguments for command: "@ + s,
        }
    }
}

impl ConsoleError {
    /// The sentence that tells a user of the error.
    pub fn message(&self) -> (m: String)
        ensures
            m@ == self@.message(),
    {
        match self {
            ConsoleError::UnknownCommand(s) => {
                let mut m = String::from_str("Unknown command: ");
                m.append(s.as_str());
                m
            },
            ConsoleError::InvalidChannel(s, n) => {
                let mut m = String::from_str("Invalid channel: ");
                m.append(s.as_str());
                m.append(". Must be between 1 and ");
                let top = decimal_string(*n as u64);
                m.append(top.as_str());
                m
            },
            ConsoleError::InvalidFixtureId(s) => {
                let mut m = String::from_str("Invalid fixture id: ");
                m.append(s.as_str());
                m
            },
            ConsoleError::InvalidLevel(s) => {
                let mut m = String::from_str("Invalid level: ");
                m.append(s.as_str());
                m.append(". Must be between 0 and 255");
                m
            },
            ConsoleError::MissingArgs(s) => {
                let mut m = String::from_str("Missing arguments for command: ");
                m.append(s.as_str());
                m
            },
        }
    }
}

/// Which way a cue is nudged in its list.
#[derive(Clone, Copy, Debug, PartialEq, Eq, Structural)]
pub enum Direction {
    Up,
    Down,
}

/// A command of the console.
#[derive(Clone, Copy, Debug, PartialEq, Eq, Structural)]
pub enum ConsoleCommand {
    DimChannel { ch: usize, value: u8 },
    DimFixture { fixture_id: u32, value: u8 },
    SetFixtureColor { fixture_id: u32, r: u8, g: u8, b: u8, w: u8 },
    Blackout,
    Clear,
    MoveExecCueToExecCue { exec_from: u32, cue_from: u32, exec_to: u32, cue_to: u32 },
    MoveExecCueDirection { exec_from: u32, cue_from: u32, direction: Direction },
}

/// What a line reads as.
pub type Parsed = Result<ConsoleCommand, ConsoleErrorView>;

/// The line is none of the known commands.
pub open spec fn unknown(s: Seq<char>) -> Parsed {
    Err(ConsoleErrorView::UnknownCommand(s))
}

/// The line breaks off too early.
pub open spec fn missing(s: Seq<char>) -> Parsed {
    Err(ConsoleErrorView::MissingArgs(s))
}

/// Whether the word at place `i`, if the line has one there, is `word`
/// in any case.
pub open spec fn keyword_fits(w: Seq<Seq<char>>, i: int, word: Seq<char>) -> bool {
    i < w.len() ==> lowered(w[i]) == word
}

/// Reading of one color component: the letter, then a level.
pub open spec fn component(word: Seq<char>, letter: char) -> Option<nat> {
    if word.len() > 0 && lowered(word)[0] == letter {
        number_in(word.drop_first(), 255)
    } else {
        None
    }
}

/// Reading of a line that starts with `chan`.
pub open spec fn read_chan(s: Seq<char>, w: Seq<Seq<char>>) -> Parsed {
    if !keyword_fits(w, 2, "at"@) {
        unknown(s)
    } else if w.len() < 4 {
        missing(s)
    } else {
        match number_in(w[1], DMX_CHANNELS as nat) {
            Some(ch) if ch >= 1 => match number_in(w[3], 255) {
                Some(value) => Ok(ConsoleCommand::DimChannel { ch: ch as usize, value: value as u8 }),
                None => Err(ConsoleErrorView::InvalidLevel(w[3])),
            },
            _ => Err(ConsoleErrorView::InvalidChannel(w[1], DMX_CHANNELS)),
        }
    }
}

/// Reading of a line `fix N at ..`.
pub open spec fn read_fix_dim(s: Seq<char>, w: Seq<Seq<char>>) -> Parsed {
    if w.len() < 4 {
        missing(s)
    } else {
        match number_in(w[1], u32::MAX as nat) {
            Some(id) => match number_in(w[3], 255) {
                Some(value) => Ok(
                    ConsoleCommand::DimFixture { fixture_id: id as u32, value: value as u8 },
                ),
                None => Err(ConsoleErrorView::InvalidLevel(w[3])),
            },
            None => Err(ConsoleErrorView::InvalidFixtureId(w[1])),
        }
    }
}

/// Reading of a line `fix N color ..`.
pub open spec fn read_fix_color(s: Seq<char>, w: Seq<Seq<char>>) -> Parsed {
    if w.len() < 7 {
        missing(s)
    } else {
        match number_in(w[1], u32::MAX as nat) {
            Some(id) => match component(w[3], 'r') {
                Some(r) => match component(w[4], 'g') {
                    Some(g) => match component(w[5], 'b') {
                        Some(b) => match component(w[6], 'w') {
                            Some(white) => Ok(
                                ConsoleCommand::SetFixtureColor {
                                    fixture_id: id as u32,
                                    r: r as u8,
                                    g: g as u8,
                                    b: b as u8,
                                    w: white as u8,
                                },
                            ),
                            None => Err(ConsoleErrorView::InvalidLevel(w[6])),
                        },
                        None => Err(ConsoleErrorView::InvalidLevel(w[5])),
                    },
                    None => Err(ConsoleErrorView::InvalidLevel(w[4])),
                },
                None => Err(ConsoleErrorView::InvalidLevel(w[3])),
            },
            None => Err(ConsoleErrorView::InvalidFixtureId(w[1])),
        }
    }
}

/// Reading of a line that starts with `fix`.
pub open spec fn read_fix(s: Seq<char>, w: Seq<Seq<char>>) -> Parsed {
    if w.len() < 3 {
        missing(s)
    } else if lowered(w[2]) == "at"@ {
        read_fix_dim(s, w)
    } else if lowered(w[2]) == "color"@ {
        read_fix_color(s, w)
    } else {
        unknown(s)
    }
}

/// Reading of a line `move exec N cue N up` or `.. down`.
pub open spec fn read_nudge(s: Seq<char>, w: Seq<Seq<char>>, direction: Direction) -> Parsed {
    match (number_in(w[2], u32::MAX as nat), number_in(w[4], u32::MAX as nat)) {
        (Some(exec), Some(cue)) => Ok(
            ConsoleCommand::MoveExecCueDirection {
                exec_from: exec as u32,
                cue_from: cue as u32,
                direction,
            },
        ),
        _ => unknown(s),
    }
}

/// Reading of a line `move exec N cue N to ..`.
pub open spec fn read_move_to(s: Seq<char>, w: Seq<Seq<char>>) -> Parsed {
    if !keyword_fits(w, 6, "exec"@) || !keyword_fits(w, 8, "cue"@) {
        unknown(s)
    } else if w.len() < 10 {
        missing(s)
    } else {
        match (
            number_in(w[2], u32::MAX as nat),
            number_in(w[4], u32::MAX as nat),
            number_in(w[7], u32::MAX as nat),
            number_in(w[9], u32::MAX as nat),
        ) {
            (Some(exec_from), Some(cue_from), Some(exec_to), Some(cue_to)) => Ok(
                ConsoleCommand::MoveExecCueToExecCue {
                    exec_from: exec_from as u32,
                    cue_from: cue_from as u32,
                    exec_to: exec_to as u32,
                    cue_to: cue_to as u32,
                },
            ),
            _ => unknown(s),
        }
    }
}

/// Reading of a line that starts with `move`.
pub open spec fn read_move(s: Seq<char>, w: Seq<Seq<char>>) -> Parsed {
    if !keyword_fits(w, 1, "exec"@) || !keyword_fits(w, 3, "cue"@) {
        unknown(s)
    } else if w.len() < 6 {
        missing(s)
    } else if lowered(w[5]) == "up"@ {
        read_nudge(s, w, Direction::Up)
    } else if lowered(w[5]) == "down"@ {
        read_nudge(s, w, Direction::Down)
    } else if lowered(w[5]) == "to"@ {
        read_move_to(s, w)
    } else {
        unknown(s)
    }
}

/// What the line `s` reads as: the command it spells, or the reason why it
/// spells none.
pub open spec fn spec_parse(s: Seq<char>) -> Parsed {
    let w = words(s);
    if w.len() == 0 {
        unknown(s)
    } else if w.len() == 1 && (lowered(w[0]) == "blackout"@ || lowered(w[0]) == "b/o"@ || lowered(
        w[0],
    ) == "bo"@) {
        Ok(ConsoleCommand::Blackout)
    } else if w.len() == 1 && (lowered(w[0]) == "clear"@ || lowered(w[0]) == "clr"@) {
        Ok(ConsoleCommand::Clear)
    } else if lowered(w[0]) == "chan"@ {
        read_chan(s, w)
    } else if lowered(w[0]) == "fix"@ {
        read_fix(s, w)
    } else if lowered(w[0]) == "move"@ {
        read_move(s, w)
    } else {
        unknown(s)
    }
}

/// `r` is the reading `m`, its texts taken as sequences of characters.
pub open spec fn parsed_as(r: Result<ConsoleCommand, ConsoleError>, m: Parsed) -> bool {
    match r {
        Ok(c) => m == Ok::<ConsoleCommand, ConsoleErrorView>(c),
        Err(e) => m == Err::<ConsoleCommand, ConsoleErrorView>(e@),
    }
}

/// A line held as characters with the places of its words.
struct Line<'a> {
    text: &'a str,
    chars: Vec<char>,
    spans: Vec<(usize, usize)>,
}

impl<'a> Line<'a> {
    spec fn wf(&self) -> bool {
        &&& self.chars@ == self.text@
        &&& spans_cover(self.chars@, self.spans@)
    }

    spec fn words(&self) -> Seq<Seq<char>> {
        words(self.text@)
    }

    fn new(text: &'a str) -> (line: Line<'a>)
        ensures
            line.wf(),
            line.text@ == text@,
    {
        let chars = collect_chars(text);
        let spans = split_words(&chars);
        Line { text, chars, spans }
    }

    fn count(&self) -> (n: usize)
        requires
            self.wf(),
        ensures
            n == self.words().len(),
    {
        self.spans.len()
    }

    fn is(&self, i: usize, word: &str) -> (r: bool)
        requires
            self.wf(),
            i < self.words().len(),
        ensures
            r == (lowered(self.words()[i as int]) == word@),
    {
        let span = self.spans[i];
        span_is(&self.chars, span.0, span.1, word)
    }

    fn fits(&self, i: usize, word: &str) -> (r: bool)
        requires
            self.wf(),
        ensures
            r == keyword_fits(self.words(), i as int, word@),
    {
        if i < self.spans.len() {
            self.is(i, word)
        } else {
            true
        }
    }

    fn number(&self, i: usize, max: u64) -> (r: Option<u64>)
        requires
            self.wf(),
            i < self.words().len(),
        ensures
            match r {
                Some(v) => number_in(self.words()[i as int], max as nat) == Some(v as nat),
                None => number_in(self.words()[i as int], max as nat) is None,
            },
    {
        let span = self.spans[i];
        parse_number(&self.chars, span.0, span.1, max)
    }

    fn component(&self, i: usize, letter: char) -> (r: Option<u8>)
        requires
            self.wf(),
            i < self.words().len(),
            letter == crate::text::lower(letter),
        ensures
            match r {
                Some(v) => component(self.words()[i as int], letter) == Some(v as nat),
                None => component(self.words()[i as int], letter) is None,
            },
    {
        let span = self.spans[i];
        let ghost word = self.words()[i as int];
        if span.0 < span.1 && crate::text::to_lower(self.chars[span.0]) == letter {
            assert(self.chars@[span.0 as int] == word[0]);
            assert(word.drop_first() =~= self.chars@.subrange(span.0 + 1, span.1 as int));
            match parse_number(&self.chars, span.0 + 1, span.1, 255) {
                Some(v) => Some(v as u8),
                None => None,
            }
        } else {
            if span.0 < span.1 {
                assert(self.chars@[span.0 as int] == word[0]);
            }
            None
        }
    }

    fn word(&self, i: usize) -> (s: String)
        requires
            self.wf(),
            i < self.words().len(),
        ensures
            s@ == self.words()[i as int],
    {
        let span = self.spans[i];
        String::from_str(self.text.substring_char(span.0, span.1))
    }

    fn whole(&self) -> (s: String)
        ensures
            s@ == self.text@,
    {
        String::from_str(self.text)
    }

    fn unknown(&self) -> (r: Result<ConsoleCommand, ConsoleError>)
        ensures
            parsed_as(r, unknown(self.text@)),
    {
        Err(ConsoleError::UnknownCommand(self.whole()))
    }

    fn missing(&self) -> (r: Result<ConsoleCommand, ConsoleError>)
        ensures
            parsed_as(r, missing(self.text@)),
    {
        Err(ConsoleError::MissingArgs(self.whole()))
    }

    fn chan(&self) -> (r: Result<ConsoleCommand, ConsoleError>)
        requires
            self.wf(),
            self.words().len() >= 1,
        ensures
            parsed_as(r, read_chan(self.text@, self.words())),
    {
        if !self.fits(2, "at") {
            return self.unknown();
        }
        if self.count() < 4 {
            return self.missing();
        }
        let ch = match self.number(1, DMX_CHANNELS as u64) {
            Some(ch) if ch >= 1 => ch as usize,
            _ => {
                return Err(ConsoleError::InvalidChannel(self.word(1), DMX_CHANNELS));
            },
        };
        match self.number(3, 255) {
            Some(value) => Ok(ConsoleCommand::DimChannel { ch, value: value as u8 }),
            None => Err(ConsoleError::InvalidLevel(self.word(3))),
        }
    }

    fn fix_dim(&self) -> (r: Result<ConsoleCommand, ConsoleError>)
        requires
            self.wf(),
            self.words().len() >= 3,
        ensures
            parsed_as(r, read_fix_dim(self.text@, self.words())),
    {
        if self.count() < 4 {
            return self.missing();
        }
        let fixture_id = match self.number(1, u32::MAX as u64) {
            Some(id) => id as u32,
            None => {
                return Err(ConsoleError::InvalidFixtureId(self.word(1)));
            },
        };
        match self.number(3, 255) {
            Some(value) => Ok(ConsoleCommand::DimFixture { fixture_id, value: value as u8 }),
            None => Err(ConsoleError::InvalidLevel(self.word(3))),
        }
    }

    fn fix_color(&self) -> (r: Result<ConsoleCommand, ConsoleError>)
        requires
            self.wf(),
            self.words().len() >= 3,
        ensures
            parsed_as(r, read_fix_color(self.text@, self.words())),
    {
        if self.count() < 7 {
            return self.missing();
        }
        let fixture_id = match self.number(1, u32::MAX as u64) {
            Some(id) => id as u32,
            None => {
                return Err(ConsoleError::InvalidFixtureId(self.word(1)));
            },
        };
        let r = match self.component(3, 'r') {
            Some(v) => v,
            None => {
                return Err(ConsoleError::InvalidLevel(self.word(3)));
            },
        };
        let g = match self.component(4, 'g') {
            Some(v) => v,
            None => {
                return Err(ConsoleError::InvalidLevel(self.word(4)));
            },
        };
        let b = match self.component(5, 'b') {
            Some(v) => v,
            None => {
                return Err(ConsoleError::InvalidLevel(self.word(5)));
            },
        };
        let w = match self.component(6, 'w') {
            Some(v) => v,
            None => {
                return Err(ConsoleError::InvalidLevel(self.word(6)));
            },
        };
        Ok(ConsoleCommand::SetFixtureColor { fixture_id, r, g, b, w })
    }

    fn fix(&self) -> (r: Result<ConsoleCommand, ConsoleError>)
        requires
            self.wf(),
            self.words().len() >= 1,
        ensures
            parsed_as(r, read_fix(self.text@, self.words())),
    {
        if self.count() < 3 {
            self.missing()
        } else if self.is(2, "at") {
            self.fix_dim()
        } else if self.is(2, "color") {
            self.fix_color()
        } else {
            self.unknown()
        }
    }

    fn nudge(&self, direction: Direction) -> (r: Result<ConsoleCommand, ConsoleError>)
        requires
            self.wf(),
            self.words().len() >= 6,
        ensures
            parsed_as(r, read_nudge(self.text@, self.words(), direction)),
    {
        match (self.number(2, u32::MAX as u64), self.number(4, u32::MAX as u64)) {
            (Some(exec), Some(cue)) => Ok(
                ConsoleCommand::MoveExecCueDirection {
                    exec_from: exec as u32,
                    cue_from: cue as u32,
                    direction,
                },
            ),
            _ => self.unknown(),
        }
    }

    fn move_to(&self) -> (r: Result<ConsoleCommand, ConsoleError>)
        requires
            self.wf(),
            self.words().len() >= 6,
        ensures
            parsed_as(r, read_move_to(self.text@, self.words())),
    {
        if !self.fits(6, "exec") || !self.fits(8, "cue") {
            return self.unknown();
        }
        if self.count() < 10 {
            return self.missing();
        }
        match (
            self.number(2, u32::MAX as u64),
            self.number(4, u32::MAX as u64),
            self.number(7, u32::MAX as u64),
            self.number(9, u32::MAX as u64),
        ) {
            (Some(exec_from), Some(cue_from), Some(exec_to), Some(cue_to)) => Ok(
                ConsoleCommand::MoveExecCueToExecCue {
                    exec_from: exec_from as u32,
                    cue_from: cue_from as u32,
                    exec_to: exec_to as u32,
                    cue_to: cue_to as u32,
                },
            ),
            _ => self.unknown(),
        }
    }

    fn moving(&self) -> (r: Result<ConsoleCommand, ConsoleError>)
        requires
            self.wf(),
            self.words().len() >= 1,
        ensures
            parsed_as(r, read_move(self.text@, self.words())),
    {
        if !self.fits(1, "exec") || !self.fits(3, "cue") {
            self.unknown()
        } else if self.count() < 6 {
            self.missing()
        } else if self.is(5, "up") {
            self.nudge(Direction::Up)
        } else if self.is(5, "down") {
            self.nudge(Direction::Down)
        } else if self.is(5, "to") {
            self.move_to()
        } else {
            self.unknown()
        }
    }
}

impl ConsoleCommand {
    /// Reads a line as a command.
    pub fn parse(input: &str) -> (r: Result<ConsoleCommand, ConsoleError>)
        ensures
            parsed_as(r, spec_parse(input@)),
    {
        let line = Line::new(input);
        if line.count() == 0 {
            line.unknown()
        } else if line.count() == 1 && (line.is(0, "blackout") || line.is(0, "b/o") || line.is(
            0,
            "bo",
        )) {
            Ok(ConsoleCommand::Blackout)
        } else if line.count() == 1 && (line.is(0, "clear") || line.is(0, "clr")) {
            Ok(ConsoleCommand::Clear)
        } else if line.is(0, "chan") {
            line.chan()
        } else if line.is(0, "fix") {
            line.fix()
        } else if line.is(0, "move") {
            line.moving()
        } else {
            line.unknown()
        }
    }

    /// Reads an owned line as a command.
    pub fn try_from(value: String) -> (r: Result<ConsoleCommand, ConsoleError>)
        ensures
            parsed_as(r, spec_parse(value@)),
    {
        ConsoleCommand::parse(value.as_str())
    }
}

} // verus!
