//! Cues and executors: the cue list of a playback fader and the state
//! machine that fades its output in.
//!
//! Levels are thousandths (see `level`), times are milliseconds. The
//! functions that end in `_at` take the present instant as an argument;
//! those without read the system clock and hand it on.

use crate::dmx_types::{DMXBufferValue, DMX_CHANNELS};
use crate::level::{fade_progress, level_product, product, progress_of, LEVEL_FULL};
use crate::text::{decimal_digits, decimal_string};
use vstd::prelude::*;
use vstd::string::*;

verus! {

/// A frame with every channel at 0.
pub open spec fn dark_frame() -> Seq<u8> {
    Seq::new(DMX_CHANNELS as nat, |i: int| 0u8)
}

/// Makes a dark frame.
pub fn new_frame() -> (frame: Vec<u8>)
    ensures
        frame@ == dark_frame(),
{
    let frame = vec![0u8; DMX_CHANNELS];
    assert(frame@ =~= dark_frame());
    frame
}

/// A stored look: a full frame of channel levels with the time its fade
/// takes and the delay before it, both in milliseconds.
#[derive(Clone, Debug)]
pub struct Cue {
    pub id: u32,
    pub name: String,
    pub fade_time: u32,
    pub delay: u32,
    pub levels: Vec<u8>,
}

impl Cue {
    /// The cue holds one level for each channel of a frame.
    pub open spec fn wf(&self) -> bool {
        self.levels@.len() == DMX_CHANNELS
    }

    /// A dark cue without fade, named `Cue ` and its identifier.
    pub fn new(id: u32) -> (cue: Cue)
        ensures
            cue.id == id,
            cue.name@ == "Cue "@ + decimal_digits(id as nat),
            cue.fade_time == 0,
            cue.delay == 0,
            cue.levels@ == dark_frame(),
            cue.wf(),
    {
        let mut name = String::from_str("Cue ");
        let digits = decimal_string(id as u64);
        name.append(digits.as_str());
        Cue { id, name, fade_time: 0, delay: 0, levels: new_frame() }
    }
}

/// A frame with the values of `buffer` written into it, the first `count`
/// of them in order: each at the place of its channel number less one,
/// numbers outside `1..=512` left out.
pub open spec fn with_stored(frame: Seq<u8>, buffer: Seq<DMXBufferValue>, count: int) -> Seq<u8>
    decreases count,
{
    if count <= 0 {
        frame
    } else {
        let before = with_stored(frame, buffer, count - 1);
        let v = buffer[count - 1];
        if 1 <= v.chan <= before.len() {
            before.update(v.chan - 1, v.dmx)
        } else {
            before
        }
    }
}

/// The highest identifier among the cues of `list`, 0 for an empty list.
pub open spec fn highest_id(list: Seq<Cue>) -> nat
    decreases list.len(),
{
    if list.len() == 0 {
        0
    } else if list.last().id > highest_id(list.drop_last()) {
        list.last().id as nat
    } else {
        highest_id(list.drop_last())
    }
}

/// No cue of a list has an identifier above the highest, so the
/// identifier that `store` gives is that of no cue in the list unless the
/// largest identifier is taken.
pub proof fn lemma_highest_id(list: Seq<Cue>)
    ensures
        highest_id(list) <= u32::MAX,
        forall|i: int| 0 <= i < list.len() ==> (#[trigger] list[i]).id <= highest_id(list),
    decreases list.len(),
{
    if list.len() > 0 {
        lemma_highest_id(list.drop_last());
        assert forall|i: int| 0 <= i < list.len() implies (#[trigger] list[i]).id <= highest_id(
            list,
        ) by {
            if i < list.len() - 1 {
                assert(list.drop_last()[i] == list[i]);
            }
        }
    }
}

/// A playback fader with its list of cues.
#[derive(Clone, Debug)]
pub struct Executor {
    /// Place of this executor, counted from 0.
    pub id: u32,
    /// Identifier of the cue gone to last, if any.
    pub current_cue: Option<u32>,
    /// Place of the current cue in `cue_list`.
    pub current_cue_index: usize,
    pub is_running: bool,
    pub cue_list: Vec<Cue>,
    /// Position of the fader.
    pub fader_level: u32,
    /// The levels that the cue gone to last had when it was gone to.
    pub stored_channels: Vec<u8>,
    pub target_level: u32,
    /// The level at which the current cue goes out at present.
    pub current_output_level: u32,
    /// The instant at which the running fade began.
    pub fade_start_time: u64,
    pub is_fading: bool,
    /// Position of the fader when the fade was last advanced.
    pub last_fader_level: u32,
}

/// The system clock in milliseconds since the Unix epoch, read with
/// `std::time::SystemTime::now`; 0 where the clock stands before the epoch.
/// Nothing is promised of the value: two readings may differ in any way.
#[verifier::external_body]
pub(crate) fn now_millis() -> (now: u64) {
    match std::time::SystemTime::now().duration_since(std::time::UNIX_EPOCH) {
        Ok(since) => since.as_millis() as u64,
        Err(_) => 0,
    }
}

impl Executor {
    /// The executor is as `new` makes it for the place `id`: without cues,
    /// nothing current, its fader down, no fade running and its stored
    /// channels dark.
    pub open spec fn is_new(&self, id: u32) -> bool {
        &&& self.id == id
        &&& self.current_cue is None
        &&& self.current_cue_index == 0
        &&& !self.is_running
        &&& self.cue_list@ == Seq::<Cue>::empty()
        &&& self.fader_level == 0
        &&& self.stored_channels@ == dark_frame()
        &&& self.target_level == 0
        &&& self.current_output_level == 0
        &&& self.fade_start_time == 0
        &&& !self.is_fading
        &&& self.last_fader_level == 0
    }

    /// An executor without cues, its fader down and its stored channels
    /// dark.
    pub fn new(id: u32) -> (e: Executor)
        ensures
            e.is_new(id),
    {
        Executor {
            id,
            current_cue: None,
            current_cue_index: 0,
            is_running: false,
            cue_list: Vec::new(),
            fader_level: 0,
            stored_channels: new_frame(),
            target_level: 0,
            current_output_level: 0,
            fade_start_time: 0,
            is_fading: false,
            last_fader_level: 0,
        }
    }

    /// The place after the current one, the first after the last.
    pub open spec fn next_index(&self) -> int
        recommends
            self.cue_list@.len() > 0,
    {
        let step = if self.current_cue_index == usize::MAX {
            usize::MAX as int
        } else {
            self.current_cue_index + 1
        };
        step % (self.cue_list@.len() as int)
    }

    /// The place before the current one, the last before the first.
    pub open spec fn previous_index(&self) -> int
        recommends
            self.cue_list@.len() > 0,
    {
        let n = self.cue_list@.len() as int;
        (self.current_cue_index as int % n + n - 1) % n
    }

    /// `post` is `pre` gone to the cue at place `to` at the instant `now`:
    /// that cue is current, its levels are stored, and a fade towards the
    /// fader's position has begun.
    pub open spec fn stepped(pre: Executor, post: Executor, to: int, now: u64) -> bool {
        &&& post == (Executor {
            current_cue_index: to as usize,
            current_cue: Some(pre.cue_list@[to].id),
            stored_channels: post.stored_channels,
            target_level: pre.fader_level,
            is_fading: true,
            fade_start_time: now,
            ..pre
        })
        &&& post.stored_channels@ == pre.cue_list@[to].levels@
    }

    fn step_to(&mut self, to: usize, now: u64)
        requires
            to < old(self).cue_list@.len(),
        ensures
            Self::stepped(*old(self), *final(self), to as int, now),
    {
        self.current_cue_index = to;
        self.current_cue = Some(self.cue_list[to].id);
        self.stored_channels = self.cue_list[to].levels.clone();
        self.target_level = self.fader_level;
        self.is_fading = true;
        self.fade_start_time = now;
    }

    /// Goes to the next cue at the instant `now`. Without cues nothing
    /// changes.
    pub fn go_at(&mut self, now: u64)
        ensures
            old(self).cue_list@.len() == 0 ==> *final(self) == *old(self),
            old(self).cue_list@.len() > 0 ==> Self::stepped(
                *old(self),
                *final(self),
                old(self).next_index(),
                now,
            ),
    {
        if self.cue_list.is_empty() {
            return ;
        }
        let to = self.current_cue_index.saturating_add(1) % self.cue_list.len();
        self.step_to(to, now);
    }

    /// Goes to the previous cue at the instant `now`. Without cues nothing
    /// changes.
    pub fn go_back_at(&mut self, now: u64)
        ensures
            old(self).cue_list@.len() == 0 ==> *final(self) == *old(self),
            old(self).cue_list@.len() > 0 ==> Self::stepped(
                *old(self),
                *final(self),
                old(self).previous_index(),
                now,
            ),
    {
        if self.cue_list.is_empty() {
            return ;
        }
        let n = self.cue_list.len();
        let place = self.current_cue_index % n;
        let to = if place == 0 {
            n - 1
        } else {
            place - 1
        };
        assert(to == (place + n - 1) % (n as int)) by {
            if place != 0 {
                vstd::arithmetic::div_mod::lemma_mod_add_multiples_vanish(place - 1, n as int);
                vstd::arithmetic::div_mod::lemma_small_mod((place - 1) as nat, n as nat);
            } else {
                vstd::arithmetic::div_mod::lemma_small_mod((n - 1) as nat, n as nat);
            }
        }
        self.step_to(to, now);
    }

    /// Goes to the next cue now. Without cues nothing changes; else the
    /// fade starts at whatever the clock gave.
    pub fn go(&mut self)
        ensures
            old(self).cue_list@.len() == 0 ==> *final(self) == *old(self),
            old(self).cue_list@.len() > 0 ==> Self::stepped(
                *old(self),
                *final(self),
                old(self).next_index(),
                final(self).fade_start_time,
            ),
    {
        if self.cue_list.is_empty() {
            return ;
        }
        let now = now_millis();
        self.go_at(now);
    }

    /// Goes to the previous cue now. Without cues nothing changes; else
    /// the fade starts at whatever the clock gave.
    pub fn go_back(&mut self)
        ensures
            old(self).cue_list@.len() == 0 ==> *final(self) == *old(self),
            old(self).cue_list@.len() > 0 ==> Self::stepped(
                *old(self),
                *final(self),
                old(self).previous_index(),
                final(self).fade_start_time,
            ),
    {
        if self.cue_list.is_empty() {
            return ;
        }
        let now = now_millis();
        self.go_back_at(now);
    }

    /// Whether the fader has left zero since the fade was last advanced.
    pub open spec fn flashed(&self) -> bool {
        self.last_fader_level == 0 && self.fader_level != 0
    }

    /// The levels of the current cue, if the current place holds one.
    pub open spec fn active_levels(&self) -> Option<Seq<u8>> {
        if self.current_cue_index < self.cue_list@.len() {
            Some(self.cue_list@[self.current_cue_index as int].levels@)
        } else {
            None
        }
    }

    /// The fade time of the current cue, if the current place holds one.
    pub open spec fn active_fade_time(&self) -> Option<u32> {
        if self.current_cue_index < self.cue_list@.len() {
            Some(self.cue_list@[self.current_cue_index as int].fade_time)
        } else {
            None
        }
    }

    /// The executor after its fade was advanced at the instant `now`.
    ///
    /// A fader that left zero starts a fade towards full from `now`. While
    /// no fade runs, or no cue is current, the output follows the fader.
    /// A running fade puts out the fader's position times the part of the
    /// cue's fade time that has passed, and ends, with the output at the
    /// fader's position, once all of it has.
    pub open spec fn after_fade(self, now: u64) -> Executor {
        let fading = self.flashed() || self.is_fading;
        let start = if self.flashed() {
            now
        } else {
            self.fade_start_time
        };
        let base = Executor {
            target_level: if self.flashed() {
                LEVEL_FULL
            } else {
                self.target_level
            },
            fade_start_time: start,
            last_fader_level: self.fader_level,
            is_fading: fading,
            current_output_level: self.fader_level,
            ..self
        };
        match self.active_fade_time() {
            Some(fade_time) => if fading {
                let elapsed = if now >= start {
                    (now - start) as nat
                } else {
                    0nat
                };
                let progress = fade_progress(elapsed, fade_time as nat);
                if progress >= LEVEL_FULL {
                    Executor { is_fading: false, ..base }
                } else {
                    Executor {
                        current_output_level: level_product(progress as u32, self.fader_level) as u32,
                        ..base
                    }
                }
            } else {
                base
            },
            None => base,
        }
    }

    /// Advancing a fade leaves the cues and the current place alone, and
    /// the output never goes above the fader.
    pub proof fn lemma_after_fade(self, now: u64)
        ensures
            self.after_fade(now).cue_list == self.cue_list,
            self.after_fade(now).current_cue_index == self.current_cue_index,
            self.after_fade(now).active_levels() == self.active_levels(),
            self.after_fade(now).fader_level == self.fader_level,
            self.after_fade(now).current_output_level <= self.fader_level,
    {
        let fader = self.fader_level as nat;
        assert forall|p: nat| p < 1000 implies #[trigger] (p * fader) / 1000 <= fader by {
            assert((p * fader) / 1000 <= fader) by (nonlinear_arith)
                requires
                    p < 1000,
            ;
        }
        match self.active_fade_time() {
            Some(fade_time) => {
                let start = if self.flashed() {
                    now
                } else {
                    self.fade_start_time
                };
                let elapsed = if now >= start {
                    (now - start) as nat
                } else {
                    0nat
                };
                let progress = fade_progress(elapsed, fade_time as nat);
                if progress < LEVEL_FULL {
                    assert(level_product(progress as u32, self.fader_level) == (progress * fader)
                        / 1000);
                }
            },
            None => {},
        }
    }

    /// Advances the fade to the instant `now`.
    pub fn update_fade_at(&mut self, now: u64)
        ensures
            *final(self) == old(self).after_fade(now),
    {
        if self.last_fader_level == 0 && self.fader_level != 0 {
            self.target_level = LEVEL_FULL;
            self.is_fading = true;
            self.fade_start_time = now;
        }
        self.last_fader_level = self.fader_level;
        self.current_output_level = self.fader_level;
        if !self.is_fading || self.current_cue_index >= self.cue_list.len() {
            return ;
        }
        let fade_time = self.cue_list[self.current_cue_index].fade_time;
        let elapsed = if now >= self.fade_start_time {
            now - self.fade_start_time
        } else {
            0
        };
        let progress = progress_of(elapsed, fade_time);
        if progress >= LEVEL_FULL {
            self.is_fading = false;
        } else {
            self.current_output_level = product(progress, self.fader_level);
        }
    }

    /// Advances the fade to the present: the executor is as `after_fade`
    /// says for some instant, the one the clock gave.
    pub fn update_fade(&mut self) -> (now: u64)
        ensures
            *final(self) == old(self).after_fade(now),
    {
        let now = now_millis();
        self.update_fade_at(now);
        now
    }

    /// Identifier of the cue that `store` adds: one more than the highest
    /// identifier in the list, held to the largest identifier.
    pub open spec fn fresh_cue_id(&self) -> u32 {
        if highest_id(self.cue_list@) >= u32::MAX {
            u32::MAX
        } else {
            (highest_id(self.cue_list@) + 1) as u32
        }
    }

    /// Stores the override buffer as a new cue at the end of the list: a
    /// dark frame with the buffer's values written into it.
    pub fn store(&mut self, buffer: &Vec<DMXBufferValue>)
        ensures
            final(self).cue_list@.len() == old(self).cue_list@.len() + 1,
            final(self).cue_list@.drop_last() == old(self).cue_list@,
            final(self).cue_list@.last().id == old(self).fresh_cue_id(),
            final(self).cue_list@.last().name@ == "Cue "@ + decimal_digits(
                old(self).fresh_cue_id() as nat,
            ),
            final(self).cue_list@.last().fade_time == 0,
            final(self).cue_list@.last().delay == 0,
            final(self).cue_list@.last().levels@ == with_stored(
                dark_frame(),
                buffer@,
                buffer@.len() as int,
            ),
            *final(self) == (Executor { cue_list: final(self).cue_list, ..*old(self) }),
    {
        let mut highest: u32 = 0;
        let mut k: usize = 0;
        while k < self.cue_list.len()
            invariant
                k <= self.cue_list@.len(),
                *self == *old(self),
                highest == highest_id(self.cue_list@.take(k as int)),
            decreases self.cue_list@.len() - k,
        {
            assert(self.cue_list@.take(k + 1).drop_last() =~= self.cue_list@.take(k as int));
            if self.cue_list[k].id > highest {
                highest = self.cue_list[k].id;
            }
            k = k + 1;
        }
        assert(self.cue_list@.take(k as int) =~= self.cue_list@);
        let id: u32 = if highest == u32::MAX {
            u32::MAX
        } else {
            highest + 1
        };
        let mut cue = Cue::new(id);
        let mut levels = new_frame();
        let mut i: usize = 0;
        while i < buffer.len()
            invariant
                i <= buffer@.len(),
                levels@.len() == DMX_CHANNELS,
                levels@ == with_stored(dark_frame(), buffer@, i as int),
            decreases buffer@.len() - i,
        {
            let v = buffer[i];
            if 1 <= v.chan && v.chan <= DMX_CHANNELS {
                levels[v.chan - 1] = v.dmx;
            }
            i = i + 1;
        }
        cue.levels = levels;
        self.cue_list.push(cue);
        assert(self.cue_list@.drop_last() =~= old(self).cue_list@);
    }

    /// Removes every cue: nothing is current and the stored channels are
    /// dark.
    pub fn clear_cues(&mut self)
        ensures
            final(self).cue_list@ == Seq::<Cue>::empty(),
            final(self).stored_channels@ == dark_frame(),
            *final(self) == (Executor {
                cue_list: final(self).cue_list,
                stored_channels: final(self).stored_channels,
                current_cue: None,
                current_cue_index: 0,
                ..*old(self)
            }),
    {
        self.cue_list.clear();
        self.current_cue = None;
        self.current_cue_index = 0;
        self.stored_channels = new_frame();
    }
}

} // verus!
